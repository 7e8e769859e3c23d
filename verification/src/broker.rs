//! The broker: pending approvals, their one-shot decisions, replay protection and session rules.
use std::collections::VecDeque;
use std::str::FromStr;

use vstd::prelude::*;
use vstd::string::StringExecFns;

use crate::clock::{timestamp, timestamp_text, Moment};
use crate::display::{sanitize, sanitized, ApprovalDetailContent, DetailModel};
use crate::policy::{
    all_well_formed, deciding_rule, distinct_keys, draft_from, draft_models, inserted,
    inserting_keeps_rules_in_order, policy_of, validate_policy, DraftModel, PolicyError,
    PolicyErrorModel, RuleAction, RuleDraft, RuleModel, RuleScope, SessionRule, SessionRules,
    MAX_SESSION_RULES,
};
use crate::protocol::{
    carries, denied, DecisionModel, IncomingApproval, IncomingModel, KnownApprovalRequest, RequestModel,
    SourceKind, WebhookDecision, WIRE_ADAPTER_VERSION,
};
use crate::text::{
    before, byte_len, chars, hex_byte, is_before, lemma_before_total, lemma_before_transitive,
    push_hex_byte, same, text_option, utf8_len,
};

verus! {

/// How long a request waits for its decision by default: 270 seconds, in nanoseconds.
pub const DEFAULT_REQUEST_TIMEOUT: u128 = 270000000000;

/// How many requests may wait at once by default.
pub const DEFAULT_MAX_PENDING: usize = 64;

/// How many requests of one session may wait at once by default.
pub const DEFAULT_MAX_PER_SESSION: usize = 8;

/// How many completed approvals are remembered by default.
pub const DEFAULT_TOMBSTONE_LIMIT: usize = 1024;

/// How long a completed approval is remembered by default: ten minutes, in nanoseconds.
pub const DEFAULT_TOMBSTONE_TTL: u128 = 600000000000;

/// The reason of a denial for which the user gave none.
pub const DEFAULT_DENIAL_REASON: &'static str = "denied by local user";

/// The longest denial reason, in bytes.
pub const MAX_DENIAL_REASON_BYTES: usize = 4096;

/// The reason given when the lease of a request ran out.
pub const EXPIRED_REASON: &'static str = "approval request expired";

/// The reason given when the daemon shuts down.
pub const SHUTDOWN_REASON: &'static str = "approval daemon is shutting down";

/// The reason given when the daemon is gone before it decided.
pub const STOPPED_REASON: &'static str = "approval daemon stopped";

/// The limits of a broker; times in nanoseconds.
#[derive(Clone, Copy, Debug, PartialEq, Eq, Structural)]
pub struct BrokerConfig {
    pub request_timeout: u128,
    pub max_pending: usize,
    pub max_per_session: usize,
    pub tombstone_limit: usize,
    pub tombstone_ttl: u128,
}

impl Default for BrokerConfig {
    fn default() -> (result: Self)
        ensures
            result == (BrokerConfig {
                request_timeout: DEFAULT_REQUEST_TIMEOUT,
                max_pending: DEFAULT_MAX_PENDING,
                max_per_session: DEFAULT_MAX_PER_SESSION,
                tombstone_limit: DEFAULT_TOMBSTONE_LIMIT,
                tombstone_ttl: DEFAULT_TOMBSTONE_TTL,
            }),
    {
        BrokerConfig {
            request_timeout: DEFAULT_REQUEST_TIMEOUT,
            max_pending: DEFAULT_MAX_PENDING,
            max_per_session: DEFAULT_MAX_PER_SESSION,
            tombstone_limit: DEFAULT_TOMBSTONE_LIMIT,
            tombstone_ttl: DEFAULT_TOMBSTONE_TTL,
        }
    }
}

impl BrokerConfig {
    /// Whether every deadline counted from a moment can be represented.
    pub open spec fn reaches(self, now: Moment) -> bool {
        &&& now.monotonic + self.request_timeout <= u128::MAX
        &&& now.monotonic + self.tombstone_ttl <= u128::MAX
        &&& now.wall + self.request_timeout <= u128::MAX
    }
}

// ---------------------------------------------------------------------------
// Approval IDs
// ---------------------------------------------------------------------------

/// A lowercase hexadecimal digit.
pub open spec fn is_hex(c: char) -> bool {
    '0' <= c <= '9' || 'a' <= c <= 'f'
}

/// The shape of an approval ID: `appr_` and sixteen lowercase hexadecimal digits.
pub open spec fn is_approval_id(text: Seq<char>) -> bool {
    &&& text.len() == 21
    &&& text.take(5) == "appr_"@
    &&& forall|i: int| 5 <= i < 21 ==> is_hex(#[trigger] text[i])
}

/// The bytes as hexadecimal digits, one after another.
pub open spec fn hex_bytes(bytes: Seq<u8>) -> Seq<char>
    decreases bytes.len(),
{
    if bytes.len() == 0 {
        Seq::empty()
    } else {
        hex_bytes(bytes.drop_last()) + hex_byte(bytes.last())
    }
}

/// The identifier of one approval.
#[derive(Debug, PartialEq, Eq, PartialOrd, Ord, Hash)]
pub struct ApprovalId(String);

impl View for ApprovalId {
    type V = Seq<char>;

    closed spec fn view(&self) -> Seq<char> {
        self.0@
    }
}

impl ApprovalId {
    /// Every identifier has the shape of one.
    #[verifier::type_invariant]
    spec fn has_shape(&self) -> bool {
        is_approval_id(self.0@)
    }
}

impl Clone for ApprovalId {
    fn clone(&self) -> (result: Self)
        ensures
            result@ == self@,
    {
        proof {
            use_type_invariant(self);
        }
        ApprovalId(self.0.clone())
    }
}

/// Calls `getrandom::fill` on eight bytes. On success they are random: nothing is claimed of them.
/// On failure the error's own text is returned.
#[verifier::external_body]
fn random_bytes() -> (result: Result<[u8; 8], String>) {
    let mut bytes: [u8; 8] = [0; 8];
    match getrandom::fill(&mut bytes) {
        Ok(()) => Ok(bytes),
        Err(error) => Err(error.to_string()),
    }
}

proof fn lemma_hex_bytes(bytes: Seq<u8>)
    ensures
        hex_bytes(bytes).len() == 2 * bytes.len(),
        forall|i: int| 0 <= i < hex_bytes(bytes).len() ==> is_hex(#[trigger] hex_bytes(bytes)[i]),
    decreases bytes.len(),
{
    if bytes.len() > 0 {
        lemma_hex_bytes(bytes.drop_last());
        let byte = bytes.last();
        assert(byte / 16 < 16 && byte % 16 < 16);
        assert(is_hex(hex_byte(byte)[0]) && is_hex(hex_byte(byte)[1]));
    }
}

/// The sixteen digits of eight random bytes.
pub(crate) fn hex_text(bytes: [u8; 8]) -> (result: String)
    ensures
        result@ == hex_bytes(bytes@),
        result@.len() == 16,
        forall|i: int| 0 <= i < 16 ==> is_hex(#[trigger] result@[i]),
{
    let mut text = String::new();
    for i in 0..8
        invariant
            text@ == hex_bytes(bytes@.take(i as int)),
    {
        push_hex_byte(&mut text, bytes[i]);
        assert(bytes@.take(i + 1).drop_last() =~= bytes@.take(i as int));
    }
    proof {
        assert(bytes@.take(8) =~= bytes@);
        lemma_hex_bytes(bytes@);
    }
    text
}

/// Draws eight random bytes and writes their sixteen digits.
pub(crate) fn random_hex() -> (result: Result<String, String>)
    ensures
        result matches Ok(text) ==> text@.len() == 16 && forall|i: int|
            0 <= i < 16 ==> is_hex(#[trigger] text@[i]),
{
    match random_bytes() {
        Ok(bytes) => Ok(hex_text(bytes)),
        Err(error) => Err(error),
    }
}

impl ApprovalId {
    /// The identifier made of eight bytes.
    pub fn from_bytes(bytes: [u8; 8]) -> (result: Self)
        ensures
            result@ == "appr_"@ + hex_bytes(bytes@),
            is_approval_id(result@),
    {
        let mut text = "appr_".to_owned();
        let digits = hex_text(bytes);
        text.append(digits.as_str());
        proof {
            reveal_strlit("appr_");
            assert(text@.take(5) =~= "appr_"@);
            assert forall|i: int| 5 <= i < 21 implies is_hex(#[trigger] text@[i]) by {
                assert(text@[i] == digits@[i - 5]);
            }
        }
        ApprovalId(text)
    }

    /// A new identifier from operating-system randomness.
    pub fn random() -> (result: Result<Self, BrokerError>)
        ensures
            match result {
                Ok(id) => is_approval_id(id@),
                Err(error) => error@ is Random,
            },
    {
        match random_bytes() {
            Ok(bytes) => Ok(ApprovalId::from_bytes(bytes)),
            Err(error) => Err(BrokerError::Random(error)),
        }
    }

    /// Accepts exactly the texts that have the shape of an approval ID.
    pub fn parse(value: &str) -> (result: Result<Self, BrokerError>)
        ensures
            match result {
                Ok(id) => is_approval_id(value@) && id@ == value@,
                Err(error) => !is_approval_id(value@) && error@
                    == BrokerErrorModel::InvalidApprovalId,
            },
    {
        let all = chars(value);
        if all.len() != 21 {
            return Err(BrokerError::InvalidApprovalId);
        }
        let prefix = chars("appr_");
        proof {
            reveal_strlit("appr_");
        }
        for i in 0..5
            invariant
                all@ == value@,
                all@.len() == 21,
                prefix@ == "appr_"@,
                prefix@.len() == 5,
                forall|j: int| 0 <= j < i ==> all@[j] == prefix@[j],
        {
            if all[i] != prefix[i] {
                assert(value@.take(5)[i as int] != "appr_"@[i as int]);
                return Err(BrokerError::InvalidApprovalId);
            }
        }
        assert(value@.take(5) =~= "appr_"@);
        for i in 5..21
            invariant
                all@ == value@,
                all@.len() == 21,
                forall|j: int| 5 <= j < i ==> is_hex(#[trigger] all@[j]),
        {
            let c = all[i];
            if !(('0' <= c && c <= '9') || ('a' <= c && c <= 'f')) {
                assert(!is_hex(value@[i as int]));
                return Err(BrokerError::InvalidApprovalId);
            }
        }
        Ok(ApprovalId(value.to_owned()))
    }

    /// The text of the identifier.
    pub fn as_str(&self) -> (result: &str)
        ensures
            result@ == self@,
            is_approval_id(result@),
    {
        proof {
            use_type_invariant(self);
        }
        self.0.as_str()
    }
}

impl FromStr for ApprovalId {
    type Err = BrokerError;

    fn from_str(value: &str) -> (result: Result<Self, BrokerError>)
        ensures
            match result {
                Ok(id) => is_approval_id(value@) && id@ == value@,
                Err(error) => !is_approval_id(value@) && error@
                    == BrokerErrorModel::InvalidApprovalId,
            },
    {
        ApprovalId::parse(value)
    }
}

// ---------------------------------------------------------------------------
// Errors
// ---------------------------------------------------------------------------

/// Why the broker refused something.
#[derive(Debug, PartialEq, Eq)]
pub enum BrokerError {
    InvalidApprovalId,
    DuplicateRequest,
    PerSessionCapacity,
    GlobalCapacity,
    NotFound,
    NotPending,
    EmptyDenialReason,
    DenialReasonTooLarge,
    Random(String),
    Policy(PolicyError),
}

/// The contents of a [`BrokerError`].
pub enum BrokerErrorModel {
    InvalidApprovalId,
    DuplicateRequest,
    PerSessionCapacity,
    GlobalCapacity,
    NotFound,
    NotPending,
    EmptyDenialReason,
    DenialReasonTooLarge,
    Random(Seq<char>),
    Policy(PolicyErrorModel),
}

impl View for BrokerError {
    type V = BrokerErrorModel;

    open spec fn view(&self) -> BrokerErrorModel {
        match *self {
            BrokerError::InvalidApprovalId => BrokerErrorModel::InvalidApprovalId,
            BrokerError::DuplicateRequest => BrokerErrorModel::DuplicateRequest,
            BrokerError::PerSessionCapacity => BrokerErrorModel::PerSessionCapacity,
            BrokerError::GlobalCapacity => BrokerErrorModel::GlobalCapacity,
            BrokerError::NotFound => BrokerErrorModel::NotFound,
            BrokerError::NotPending => BrokerErrorModel::NotPending,
            BrokerError::EmptyDenialReason => BrokerErrorModel::EmptyDenialReason,
            BrokerError::DenialReasonTooLarge => BrokerErrorModel::DenialReasonTooLarge,
            BrokerError::Random(detail) => BrokerErrorModel::Random(detail@),
            BrokerError::Policy(error) => BrokerErrorModel::Policy(error@),
        }
    }
}

impl BrokerErrorModel {
    /// The error as people read it.
    pub open spec fn message(self) -> Seq<char> {
        match self {
            BrokerErrorModel::InvalidApprovalId =>
                "approval ID must be appr_ followed by 16 lowercase hexadecimal characters"@,
            BrokerErrorModel::DuplicateRequest =>
                "approval request is already active or was recently completed"@,
            BrokerErrorModel::PerSessionCapacity => "per-session pending approval limit reached"@,
            BrokerErrorModel::GlobalCapacity => "global pending approval limit reached"@,
            BrokerErrorModel::NotFound => "approval not found"@,
            BrokerErrorModel::NotPending => "approval is no longer pending"@,
            BrokerErrorModel::EmptyDenialReason => "denial reason must not be empty"@,
            BrokerErrorModel::DenialReasonTooLarge => "denial reason exceeds 4096 bytes"@,
            BrokerErrorModel::Random(detail) => "operating-system randomness failed: "@ + detail,
            BrokerErrorModel::Policy(error) => error.message(),
        }
    }
}

impl BrokerError {
    /// The error as people read it.
    pub fn message(&self) -> (result: String)
        ensures
            result@ == self@.message(),
    {
        match self {
            BrokerError::InvalidApprovalId =>
                "approval ID must be appr_ followed by 16 lowercase hexadecimal characters".to_owned(),
            BrokerError::DuplicateRequest =>
                "approval request is already active or was recently completed".to_owned(),
            BrokerError::PerSessionCapacity => "per-session pending approval limit reached".to_owned(),
            BrokerError::GlobalCapacity => "global pending approval limit reached".to_owned(),
            BrokerError::NotFound => "approval not found".to_owned(),
            BrokerError::NotPending => "approval is no longer pending".to_owned(),
            BrokerError::EmptyDenialReason => "denial reason must not be empty".to_owned(),
            BrokerError::DenialReasonTooLarge => "denial reason exceeds 4096 bytes".to_owned(),
            BrokerError::Random(detail) => {
                let mut text = "operating-system randomness failed: ".to_owned();
                text.append(detail.as_str());
                text
            },
            BrokerError::Policy(error) => error.message(),
        }
    }
}

/// Why a denial reason is refused, if it is: a reason of nothing but NULs counts as empty.
pub open spec fn reason_error(reason: Seq<char>) -> Option<BrokerErrorModel> {
    if forall|i: int| 0 <= i < reason.len() ==> #[trigger] reason[i] == '\0' {
        Some(BrokerErrorModel::EmptyDenialReason)
    } else if utf8_len(reason) > MAX_DENIAL_REASON_BYTES {
        Some(BrokerErrorModel::DenialReasonTooLarge)
    } else {
        None
    }
}

/// Validates a denial reason that a user supplied.
pub fn validate_denial_reason(reason: &str) -> (result: Result<(), BrokerError>)
    ensures
        match reason_error(reason@) {
            None => result is Ok,
            Some(refusal) => result matches Err(error) && error@ == refusal,
        },
{
    let all = chars(reason);
    let mut i: usize = 0;
    while i < all.len()
        invariant_except_break
            forall|j: int| 0 <= j < i ==> all@[j] == '\0',
        invariant
            all@ == reason@,
            i <= all@.len(),
        ensures
            i == all@.len() ==> forall|j: int| 0 <= j < all@.len() ==> all@[j] == '\0',
            i < all@.len() ==> all@[i as int] != '\0',
        decreases all@.len() - i,
    {
        if all[i] != '\0' {
            break;
        }
        i += 1;
    }
    if i == all.len() {
        return Err(BrokerError::EmptyDenialReason);
    }
    assert(reason@[i as int] != '\0');
    if byte_len(reason) > MAX_DENIAL_REASON_BYTES {
        return Err(BrokerError::DenialReasonTooLarge);
    }
    Ok(())
}

/// A denial reason as it may be shown.
pub fn sanitized_denial_reason(reason: &str) -> (result: String)
    ensures
        result@ == sanitized(reason@),
{
    sanitize(reason)
}

// ---------------------------------------------------------------------------
// Records
// ---------------------------------------------------------------------------

/// How an approval ended.
#[derive(Clone, Copy, Debug, PartialEq, Eq, Structural)]
pub enum TerminalState {
    Granted,
    Denied,
    Expired,
    Cancelled,
}

/// What ended an approval.
#[derive(Clone, Copy, Debug, PartialEq, Eq, Structural)]
pub enum DecisionSource {
    Control,
    ControlSessionRule,
    Deadline,
    Shutdown,
    Disconnect,
}

/// A request that waits for its decision.
#[derive(Debug)]
struct PendingApproval {
    approval_id: ApprovalId,
    claimed_backend: String,
    raw_request: String,
    request: KnownApprovalRequest,
    detail: ApprovalDetailContent,
    received_at: u128,
    deadline_wall: u128,
    deadline: u128,
}

/// The contents of a request that waits for its decision.
pub struct PendingModel {
    pub approval_id: Seq<char>,
    pub claimed_backend: Seq<char>,
    pub raw_request: Seq<char>,
    pub request: RequestModel,
    pub detail: DetailModel,
    pub received_at: u128,
    pub deadline_wall: u128,
    pub deadline: u128,
}

impl View for PendingApproval {
    type V = PendingModel;

    closed spec fn view(&self) -> PendingModel {
        PendingModel {
            approval_id: self.approval_id@,
            claimed_backend: self.claimed_backend@,
            raw_request: self.raw_request@,
            request: self.request@,
            detail: self.detail@,
            received_at: self.received_at,
            deadline_wall: self.deadline_wall,
            deadline: self.deadline,
        }
    }
}

/// What is kept of a completed approval: neither its request nor its detail.
#[derive(Debug)]
struct Tombstone {
    approval_id: ApprovalId,
    capability_type: String,
    state: TerminalState,
    received_at: u128,
    completed_at: u128,
    wait_duration: u128,
    wire_adapter_version: u32,
}

/// The contents of what is kept of a completed approval.
pub struct TombstoneModel {
    pub approval_id: Seq<char>,
    pub capability_type: Seq<char>,
    pub state: TerminalState,
    pub received_at: u128,
    pub completed_at: u128,
    pub wait_duration: u128,
    pub wire_adapter_version: u32,
}

impl View for Tombstone {
    type V = TombstoneModel;

    closed spec fn view(&self) -> TombstoneModel {
        TombstoneModel {
            approval_id: self.approval_id@,
            capability_type: self.capability_type@,
            state: self.state,
            received_at: self.received_at,
            completed_at: self.completed_at,
            wait_duration: self.wait_duration,
            wire_adapter_version: self.wire_adapter_version,
        }
    }
}

/// A request that must not be submitted again before a deadline.
#[derive(Debug)]
struct ReplayEntry {
    session_id: String,
    request_id: String,
    deadline: u128,
}

/// The contents of a replay entry.
pub struct ReplayModel {
    pub session_id: Seq<char>,
    pub request_id: Seq<char>,
    pub deadline: u128,
}

impl View for ReplayEntry {
    type V = ReplayModel;

    closed spec fn view(&self) -> ReplayModel {
        ReplayModel {
            session_id: self.session_id@,
            request_id: self.request_id@,
            deadline: self.deadline,
        }
    }
}

/// The end of one approval, for whoever waits for it: the decision to deliver, if there is one, and
/// what ended the approval.
#[derive(Debug)]
pub struct Completion {
    pub approval_id: ApprovalId,
    pub state: TerminalState,
    pub source: DecisionSource,
    pub decision: Option<WebhookDecision>,
    pub wait_duration: u128,
}

/// The contents of a [`Completion`].
pub struct CompletionModel {
    pub approval_id: Seq<char>,
    pub state: TerminalState,
    pub source: DecisionSource,
    pub decision: Option<DecisionModel>,
    pub wait_duration: u128,
}

/// The content of an optional decision.
pub open spec fn decision_option(decision: Option<WebhookDecision>) -> Option<DecisionModel> {
    match decision {
        Some(value) => Some(value@),
        None => None,
    }
}

impl View for Completion {
    type V = CompletionModel;

    open spec fn view(&self) -> CompletionModel {
        CompletionModel {
            approval_id: self.approval_id@,
            state: self.state,
            source: self.source,
            decision: decision_option(self.decision),
            wait_duration: self.wait_duration,
        }
    }
}

/// One line of the queue.
#[derive(Debug, PartialEq, Eq)]
pub struct ApprovalSummary {
    pub approval_id: ApprovalId,
    pub capability_type: String,
    pub summary: String,
    pub received_at: String,
    pub deadline: String,
}

/// The contents of an [`ApprovalSummary`].
pub struct SummaryModel {
    pub approval_id: Seq<char>,
    pub capability_type: Seq<char>,
    pub summary: Seq<char>,
    pub received_at: Seq<char>,
    pub deadline: Seq<char>,
}

impl View for ApprovalSummary {
    type V = SummaryModel;

    open spec fn view(&self) -> SummaryModel {
        SummaryModel {
            approval_id: self.approval_id@,
            capability_type: self.capability_type@,
            summary: self.summary@,
            received_at: self.received_at@,
            deadline: self.deadline@,
        }
    }
}

/// The contents of a list of summaries.
pub open spec fn summary_models(summaries: Seq<ApprovalSummary>) -> Seq<SummaryModel> {
    Seq::new(summaries.len(), |i: int| summaries[i]@)
}

/// What is known of a request beyond its display, for debugging.
#[derive(Debug, PartialEq, Eq)]
pub struct DebugDetail {
    pub claimed_backend: String,
    pub source_kind: SourceKind,
    pub wire_request: KnownApprovalRequest,
}

/// The contents of a [`DebugDetail`].
pub struct DebugModel {
    pub claimed_backend: Seq<char>,
    pub source_kind: SourceKind,
    pub wire_request: RequestModel,
}

impl View for DebugDetail {
    type V = DebugModel;

    open spec fn view(&self) -> DebugModel {
        DebugModel {
            claimed_backend: self.claimed_backend@,
            source_kind: self.source_kind,
            wire_request: self.wire_request@,
        }
    }
}

/// Everything that is shown of a pending approval.
#[derive(Debug, PartialEq, Eq)]
pub struct ApprovalDetail {
    pub approval_id: ApprovalId,
    pub received_at: String,
    pub deadline: String,
    pub content: ApprovalDetailContent,
    pub debug: Option<DebugDetail>,
}

/// The contents of an [`ApprovalDetail`].
pub struct ApprovalDetailModel {
    pub approval_id: Seq<char>,
    pub received_at: Seq<char>,
    pub deadline: Seq<char>,
    pub content: DetailModel,
    pub debug: Option<DebugModel>,
}

impl View for ApprovalDetail {
    type V = ApprovalDetailModel;

    open spec fn view(&self) -> ApprovalDetailModel {
        ApprovalDetailModel {
            approval_id: self.approval_id@,
            received_at: self.received_at@,
            deadline: self.deadline@,
            content: self.content@,
            debug: match self.debug {
                Some(debug) => Some(debug@),
                None => None,
            },
        }
    }
}

/// What is shown of a completed approval.
#[derive(Debug, PartialEq, Eq)]
pub struct CompletedApproval {
    pub approval_id: ApprovalId,
    pub state: TerminalState,
    pub completed_at: String,
}

/// The contents of a [`CompletedApproval`].
pub struct CompletedModel {
    pub approval_id: Seq<char>,
    pub state: TerminalState,
    pub completed_at: Seq<char>,
}

impl View for CompletedApproval {
    type V = CompletedModel;

    open spec fn view(&self) -> CompletedModel {
        CompletedModel {
            approval_id: self.approval_id@,
            state: self.state,
            completed_at: self.completed_at@,
        }
    }
}

/// What is shown of an approval.
#[derive(Debug, PartialEq, Eq)]
pub enum ShowApproval {
    Pending(ApprovalDetail),
    Completed(CompletedApproval),
}

/// The contents of a [`ShowApproval`].
pub enum ShowModel {
    Pending(ApprovalDetailModel),
    Completed(CompletedModel),
}

impl View for ShowApproval {
    type V = ShowModel;

    open spec fn view(&self) -> ShowModel {
        match *self {
            ShowApproval::Pending(detail) => ShowModel::Pending(detail@),
            ShowApproval::Completed(completed) => ShowModel::Completed(completed@),
        }
    }
}

/// The registration of a request: its identifier and the end of its lease on the monotonic clock.
#[derive(Debug)]
pub struct Submission {
    pub approval_id: ApprovalId,
    pub deadline: u128,
}

/// What became of a request that came in.
#[derive(Debug)]
pub enum IngressOutcome {
    Automatic(WebhookDecision),
    Pending(Submission),
}

// ---------------------------------------------------------------------------
// The state of a broker
// ---------------------------------------------------------------------------

/// The contents of a [`Broker`].
#[verifier::ext_equal]
pub struct BrokerModel {
    pub config: BrokerConfig,
    pub pending: Seq<PendingModel>,
    pub replay: Seq<ReplayModel>,
    pub tombstones: Seq<TombstoneModel>,
    pub rules: Seq<RuleModel>,
    pub stopped: bool,
    pub completions: Seq<CompletionModel>,
}

impl PendingModel {
    /// Whether this request is about the given session and request identifiers.
    pub open spec fn has_key(self, session_id: Seq<char>, request_id: Seq<char>) -> bool {
        self.request.session_id() == session_id && self.request.request_id() == request_id
    }

    /// Whether this request comes before another in the queue: it was received earlier, or at the
    /// same time with the lesser identifier.
    pub open spec fn goes_before(self, other: PendingModel) -> bool {
        ||| self.received_at < other.received_at
        ||| self.received_at == other.received_at && before(self.approval_id, other.approval_id)
    }

    /// How two requests in the queue relate, the first before the second.
    pub open spec fn precedes(self, other: PendingModel) -> bool {
        &&& self.goes_before(other)
        &&& self.approval_id != other.approval_id
        &&& !self.has_key(other.request.session_id(), other.request.request_id())
    }

    /// What is kept of the request once it is completed.
    pub open spec fn tombstone(self, state: TerminalState, now: Moment) -> TombstoneModel {
        TombstoneModel {
            approval_id: self.approval_id,
            capability_type: self.request.capability_type(),
            state,
            received_at: self.received_at,
            completed_at: now.wall,
            wait_duration: waited(self.received_at, now),
            wire_adapter_version: WIRE_ADAPTER_VERSION,
        }
    }

    /// The reservation of the request's key once it is completed.
    pub open spec fn reservation(self, config: BrokerConfig, now: Moment) -> ReplayModel {
        ReplayModel {
            session_id: self.request.session_id(),
            request_id: self.request.request_id(),
            deadline: (now.monotonic + config.tombstone_ttl) as u128,
        }
    }

    /// What whoever waits for the request is told once it is completed.
    pub open spec fn completion(
        self,
        state: TerminalState,
        source: DecisionSource,
        decision: Option<DecisionModel>,
        now: Moment,
    ) -> CompletionModel {
        CompletionModel {
            approval_id: self.approval_id,
            state,
            source,
            decision,
            wait_duration: waited(self.received_at, now),
        }
    }

    /// The line of the request in the queue.
    pub open spec fn summary(self) -> SummaryModel {
        SummaryModel {
            approval_id: self.approval_id,
            capability_type: self.request.capability_type(),
            summary: self.detail.summary,
            received_at: timestamp_text(self.received_at),
            deadline: timestamp_text(self.deadline_wall),
        }
    }

    /// Everything that is shown of the request.
    pub open spec fn shown(self) -> ApprovalDetailModel {
        ApprovalDetailModel {
            approval_id: self.approval_id,
            received_at: timestamp_text(self.received_at),
            deadline: timestamp_text(self.deadline_wall),
            content: self.detail,
            debug: Some(
                DebugModel {
                    claimed_backend: self.claimed_backend,
                    source_kind: self.request.source_kind(),
                    wire_request: self.request,
                },
            ),
        }
    }
}

/// The wall-clock time from receipt until now, or zero if the clock went back.
pub open spec fn waited(received_at: u128, now: Moment) -> u128 {
    if now.wall >= received_at {
        (now.wall - received_at) as u128
    } else {
        0
    }
}

impl TombstoneModel {
    /// What is shown of the completed approval.
    pub open spec fn shown(self) -> CompletedModel {
        CompletedModel {
            approval_id: self.approval_id,
            state: self.state,
            completed_at: timestamp_text(self.completed_at),
        }
    }
}

/// The position of a pending request, if it is there.
pub open spec fn pending_position(pending: Seq<PendingModel>, id: Seq<char>) -> Option<int>
    decreases pending.len(),
{
    if pending.len() == 0 {
        None
    } else if pending[0].approval_id == id {
        Some(0)
    } else {
        match pending_position(pending.drop_first(), id) {
            Some(i) => Some(i + 1),
            None => None,
        }
    }
}

/// The position of the first tombstone of an approval, if there is one.
pub open spec fn tombstone_position(tombstones: Seq<TombstoneModel>, id: Seq<char>) -> Option<int>
    decreases tombstones.len(),
{
    if tombstones.len() == 0 {
        None
    } else if tombstones[0].approval_id == id {
        Some(0)
    } else {
        match tombstone_position(tombstones.drop_first(), id) {
            Some(i) => Some(i + 1),
            None => None,
        }
    }
}

/// How many pending requests belong to a session.
pub open spec fn session_count(pending: Seq<PendingModel>, session_id: Seq<char>) -> nat
    decreases pending.len(),
{
    if pending.len() == 0 {
        0
    } else {
        session_count(pending.drop_last(), session_id) + (if pending.last().request.session_id()
            == session_id {
            1nat
        } else {
            0
        })
    }
}

/// How many requests at the start of the queue come before a request.
pub open spec fn queue_position(pending: Seq<PendingModel>, entry: PendingModel) -> int
    decreases pending.len(),
{
    if pending.len() == 0 || !pending[0].goes_before(entry) {
        0
    } else {
        1 + queue_position(pending.drop_first(), entry)
    }
}

/// The newest tombstones, at most `limit` of them.
pub open spec fn newest(tombstones: Seq<TombstoneModel>, limit: nat) -> Seq<TombstoneModel> {
    if tombstones.len() > limit {
        tombstones.skip(tombstones.len() - limit)
    } else {
        tombstones
    }
}

/// The tombstones from the first one on that was completed at `cutoff` or later.
pub open spec fn recent(tombstones: Seq<TombstoneModel>, cutoff: int) -> Seq<TombstoneModel>
    decreases tombstones.len(),
{
    if tombstones.len() == 0 || tombstones[0].completed_at >= cutoff {
        tombstones
    } else {
        recent(tombstones.drop_first(), cutoff)
    }
}

impl BrokerModel {
    /// Whether a request with these identifiers is pending or was completed lately.
    pub open spec fn knows_key(self, session_id: Seq<char>, request_id: Seq<char>) -> bool {
        ||| exists|i: int|
            0 <= i < self.replay.len() && (#[trigger] self.replay[i]).session_id == session_id
                && self.replay[i].request_id == request_id
        ||| exists|i: int|
            0 <= i < self.pending.len() && (#[trigger] self.pending[i]).has_key(
                session_id,
                request_id,
            )
    }

    /// Whether an approval with this identifier is pending or remembered.
    pub open spec fn knows_id(self, id: Seq<char>) -> bool {
        pending_position(self.pending, id) is Some || tombstone_position(self.tombstones, id) is Some
    }

    /// Why a request is not admitted, if it is not.
    pub open spec fn admission_error(self, request: RequestModel) -> Option<BrokerErrorModel> {
        if self.knows_key(request.session_id(), request.request_id()) {
            Some(BrokerErrorModel::DuplicateRequest)
        } else if session_count(self.pending, request.session_id()) >= self.config.max_per_session {
            Some(BrokerErrorModel::PerSessionCapacity)
        } else if self.pending.len() >= self.config.max_pending {
            Some(BrokerErrorModel::GlobalCapacity)
        } else {
            None
        }
    }

    /// The state without the replay entries and tombstones whose time is over.
    pub open spec fn pruned(self, now: Moment) -> BrokerModel {
        BrokerModel {
            replay: self.replay.filter(|entry: ReplayModel| entry.deadline > now.monotonic),
            tombstones: recent(
                newest(self.tombstones, self.config.tombstone_limit as nat),
                now.wall - self.config.tombstone_ttl,
            ),
            ..self
        }
    }

    /// The state after the requests in `gone`, which are no longer pending, came to an end.
    pub open spec fn finished(
        self,
        gone: Seq<PendingModel>,
        state: TerminalState,
        source: DecisionSource,
        decision: Option<DecisionModel>,
        now: Moment,
    ) -> BrokerModel {
        (BrokerModel {
            replay: self.replay + gone.map_values(
                |entry: PendingModel| entry.reservation(self.config, now),
            ),
            tombstones: self.tombstones + gone.map_values(
                |entry: PendingModel| entry.tombstone(state, now),
            ),
            completions: self.completions + gone.map_values(
                |entry: PendingModel| entry.completion(state, source, decision, now),
            ),
            ..self
        }).pruned(now)
    }

    /// The state after the pending request at a position came to an end.
    pub open spec fn completed(
        self,
        i: int,
        state: TerminalState,
        source: DecisionSource,
        decision: Option<DecisionModel>,
        now: Moment,
    ) -> BrokerModel {
        (BrokerModel { pending: self.pending.remove(i), ..self }).finished(
            seq![self.pending[i]],
            state,
            source,
            decision,
            now,
        )
    }

    /// The state after every pending request whose lease ran out has expired.
    pub open spec fn refreshed(self, now: Moment) -> BrokerModel {
        (BrokerModel {
            pending: self.pending.filter(|entry: PendingModel| entry.deadline > now.monotonic),
            ..self
        }).finished(
            self.pending.filter(|entry: PendingModel| entry.deadline <= now.monotonic),
            TerminalState::Expired,
            DecisionSource::Deadline,
            Some(DecisionModel::Denied { reason: EXPIRED_REASON@ }),
            now,
        )
    }

    /// The pending entry of a request that is registered now.
    pub open spec fn entry(self, id: Seq<char>, incoming: IncomingModel, now: Moment) -> PendingModel {
        PendingModel {
            approval_id: id,
            claimed_backend: incoming.claimed_backend,
            raw_request: incoming.raw_request,
            request: incoming.request,
            detail: incoming.detail,
            received_at: now.wall,
            deadline_wall: (now.wall + self.config.request_timeout) as u128,
            deadline: (now.monotonic + self.config.request_timeout) as u128,
        }
    }

    /// The state after a request was registered.
    pub open spec fn registered(
        self,
        id: Seq<char>,
        incoming: IncomingModel,
        now: Moment,
    ) -> BrokerModel {
        let entry = self.entry(id, incoming, now);
        BrokerModel {
            pending: self.pending.insert(queue_position(self.pending, entry), entry),
            ..self
        }
    }

    /// The state after the identifiers of a request were reserved without registering it.
    pub open spec fn reserved(self, request: RequestModel, now: Moment) -> BrokerModel {
        BrokerModel {
            replay: self.replay.push(
                ReplayModel {
                    session_id: request.session_id(),
                    request_id: request.request_id(),
                    deadline: (now.monotonic + self.config.tombstone_ttl) as u128,
                },
            ),
            ..self
        }
    }

    /// Why an approval that is not pending cannot be decided.
    pub open spec fn missing_error(self, id: Seq<char>) -> BrokerErrorModel {
        if tombstone_position(self.tombstones, id) is Some {
            BrokerErrorModel::NotPending
        } else {
            BrokerErrorModel::NotFound
        }
    }

    /// What holds of every state of a broker but for the limit on tombstones:
    ///
    /// - the limits are kept, in all and for each session;
    /// - the queue is in order, with distinct identifiers and distinct request keys;
    /// - no pending request has the identifier of a completed approval, or a key that is reserved;
    /// - the rules are well formed, distinct and within their limit.
    pub open spec fn sound(self) -> bool {
        &&& self.pending.len() <= self.config.max_pending
        &&& forall|session: Seq<char>|
            #[trigger] session_count(self.pending, session) <= self.config.max_per_session
        &&& forall|i: int, j: int|
            0 <= i < j < self.pending.len() ==> (#[trigger] self.pending[i]).precedes(
                #[trigger] self.pending[j],
            )
        &&& forall|i: int, j: int|
            0 <= i < self.pending.len() && 0 <= j < self.tombstones.len() ==> (
            #[trigger] self.pending[i]).approval_id != (#[trigger] self.tombstones[j]).approval_id
        &&& forall|i: int, j: int|
            0 <= i < self.pending.len() && 0 <= j < self.replay.len() ==> !(
            #[trigger] self.pending[i]).has_key(
                (#[trigger] self.replay[j]).session_id,
                self.replay[j].request_id,
            )
        &&& all_well_formed(self.rules)
        &&& distinct_keys(self.rules)
        &&& self.rules.len() <= MAX_SESSION_RULES
    }

    /// What holds of every state of a broker.
    pub open spec fn well_formed(self) -> bool {
        self.sound() && self.tombstones.len() <= self.config.tombstone_limit
    }
}

/// Pending approvals, what is remembered of completed ones, and the session's rules.
pub struct Broker {
    config: BrokerConfig,
    pending: Vec<PendingApproval>,
    replay: Vec<ReplayEntry>,
    tombstones: VecDeque<Tombstone>,
    rules: SessionRules,
    stopped: bool,
    completions: Vec<Completion>,
}

closed spec fn pending_models(pending: Seq<PendingApproval>) -> Seq<PendingModel> {
    Seq::new(pending.len(), |i: int| pending[i]@)
}

closed spec fn replay_models(replay: Seq<ReplayEntry>) -> Seq<ReplayModel> {
    Seq::new(replay.len(), |i: int| replay[i]@)
}

closed spec fn tombstone_models(tombstones: Seq<Tombstone>) -> Seq<TombstoneModel> {
    Seq::new(tombstones.len(), |i: int| tombstones[i]@)
}

/// The contents of a list of completions.
pub open spec fn completion_models(completions: Seq<Completion>) -> Seq<CompletionModel> {
    Seq::new(completions.len(), |i: int| completions[i]@)
}

impl View for Broker {
    type V = BrokerModel;

    closed spec fn view(&self) -> BrokerModel {
        BrokerModel {
            config: self.config,
            pending: pending_models(self.pending@),
            replay: replay_models(self.replay@),
            tombstones: tombstone_models(self.tombstones@),
            rules: self.rules@,
            stopped: self.stopped,
            completions: completion_models(self.completions@),
        }
    }
}

// ---------------------------------------------------------------------------
// What every step keeps
// ---------------------------------------------------------------------------

/// Requests that have neither identifiers nor keys in common with the pending ones.
spec fn apart(pending: Seq<PendingModel>, gone: Seq<PendingModel>) -> bool {
    forall|i: int, k: int|
        0 <= i < pending.len() && 0 <= k < gone.len() ==> (#[trigger] pending[i]).approval_id != (
        #[trigger] gone[k]).approval_id && !pending[i].has_key(
            gone[k].request.session_id(),
            gone[k].request.request_id(),
        )
}

proof fn lemma_recent_is_suffix(tombstones: Seq<TombstoneModel>, cutoff: int) -> (start: int)
    ensures
        0 <= start <= tombstones.len(),
        recent(tombstones, cutoff) == tombstones.skip(start),
    decreases tombstones.len(),
{
    if tombstones.len() == 0 || tombstones[0].completed_at >= cutoff {
        assert(tombstones.skip(0) =~= tombstones);
        0
    } else {
        let rest = tombstones.drop_first();
        let start = lemma_recent_is_suffix(rest, cutoff);
        assert(rest.skip(start) =~= tombstones.skip(start + 1));
        start + 1
    }
}

proof fn lemma_pruned_tombstones(
    tombstones: Seq<TombstoneModel>,
    limit: nat,
    cutoff: int,
) -> (start: int)
    ensures
        0 <= start <= tombstones.len(),
        recent(newest(tombstones, limit), cutoff) == tombstones.skip(start),
        tombstones.len() - start <= limit,
{
    let kept = newest(tombstones, limit);
    let start = lemma_recent_is_suffix(kept, cutoff);
    if tombstones.len() > limit {
        let cut = tombstones.len() - limit;
        assert(kept.skip(start) =~= tombstones.skip(cut + start));
        cut + start
    } else {
        start
    }
}

proof fn lemma_pruned_is_well_formed(m: BrokerModel, now: Moment)
    requires
        m.sound(),
    ensures
        m.pruned(now).well_formed(),
{
    let after = m.pruned(now);
    let start = lemma_pruned_tombstones(
        m.tombstones,
        m.config.tombstone_limit as nat,
        now.wall - m.config.tombstone_ttl,
    );
    assert forall|i: int, j: int|
        0 <= i < after.pending.len() && 0 <= j < after.tombstones.len() implies (
    #[trigger] after.pending[i]).approval_id != (
    #[trigger] after.tombstones[j]).approval_id by {
        assert(after.tombstones[j] == m.tombstones[start + j]);
    }
    let fresh = |entry: ReplayModel| entry.deadline > now.monotonic;
    assert forall|i: int, j: int|
        0 <= i < after.pending.len() && 0 <= j < after.replay.len() implies !(
    #[trigger] after.pending[i]).has_key(
        (#[trigger] after.replay[j]).session_id,
        after.replay[j].request_id,
    ) by {
        assert(after.replay.contains(after.replay[j]));
        m.replay.lemma_filter_contains_rev(fresh, after.replay[j]);
        let k = choose|k: int| 0 <= k < m.replay.len() && m.replay[k] == after.replay[j];
        assert(!m.pending[i].has_key(m.replay[k].session_id, m.replay[k].request_id));
    }
}

proof fn lemma_finished_is_well_formed(
    m: BrokerModel,
    gone: Seq<PendingModel>,
    state: TerminalState,
    source: DecisionSource,
    decision: Option<DecisionModel>,
    now: Moment,
)
    requires
        m.sound(),
        apart(m.pending, gone),
    ensures
        m.finished(gone, state, source, decision, now).well_formed(),
{
    let replay = m.replay + gone.map_values(
        |entry: PendingModel| entry.reservation(m.config, now),
    );
    let tombstones = m.tombstones + gone.map_values(
        |entry: PendingModel| entry.tombstone(state, now),
    );
    let completions = m.completions + gone.map_values(
        |entry: PendingModel| entry.completion(state, source, decision, now),
    );
    let middle = BrokerModel { replay, tombstones, completions, ..m };
    assert forall|i: int, j: int|
        0 <= i < middle.pending.len() && 0 <= j < middle.tombstones.len() implies (
    #[trigger] middle.pending[i]).approval_id != (
    #[trigger] middle.tombstones[j]).approval_id by {
        if j < m.tombstones.len() {
            assert(middle.tombstones[j] == m.tombstones[j]);
        } else {
            let k = j - m.tombstones.len();
            assert(middle.tombstones[j].approval_id == gone[k].approval_id);
        }
    }
    assert forall|i: int, j: int|
        0 <= i < middle.pending.len() && 0 <= j < middle.replay.len() implies !(
    #[trigger] middle.pending[i]).has_key(
        (#[trigger] middle.replay[j]).session_id,
        middle.replay[j].request_id,
    ) by {
        if j < m.replay.len() {
            assert(middle.replay[j] == m.replay[j]);
        } else {
            let k = j - m.replay.len();
            assert(middle.replay[j].session_id == gone[k].request.session_id());
            assert(middle.replay[j].request_id == gone[k].request.request_id());
        }
    }
    lemma_pruned_is_well_formed(middle, now);
}

proof fn lemma_session_count_remove(pending: Seq<PendingModel>, i: int, session: Seq<char>)
    requires
        0 <= i < pending.len(),
    ensures
        session_count(pending.remove(i), session) <= session_count(pending, session),
    decreases pending.len(),
{
    if i == pending.len() - 1 {
        assert(pending.remove(i) =~= pending.drop_last());
    } else {
        let after = pending.remove(i);
        assert(after.drop_last() =~= pending.drop_last().remove(i));
        lemma_session_count_remove(pending.drop_last(), i, session);
    }
}

proof fn lemma_session_count_insert(
    pending: Seq<PendingModel>,
    i: int,
    entry: PendingModel,
    session: Seq<char>,
)
    requires
        0 <= i <= pending.len(),
    ensures
        session_count(pending.insert(i, entry), session) == session_count(pending, session) + (
        if entry.request.session_id() == session {
            1nat
        } else {
            0
        }),
    decreases pending.len(),
{
    let after = pending.insert(i, entry);
    if i == pending.len() {
        assert(after =~= pending.push(entry));
        assert(after.drop_last() =~= pending);
    } else {
        assert(after.drop_last() =~= pending.drop_last().insert(i, entry));
        lemma_session_count_insert(pending.drop_last(), i, entry, session);
    }
}

proof fn lemma_filter_keeps_queue(pending: Seq<PendingModel>, keep: spec_fn(PendingModel) -> bool)
    requires
        forall|i: int, j: int|
            0 <= i < j < pending.len() ==> (#[trigger] pending[i]).precedes(#[trigger] pending[j]),
    ensures
        forall|i: int, j: int|
            0 <= i < j < pending.filter(keep).len() ==> (#[trigger] pending.filter(
                keep,
            )[i]).precedes(#[trigger] pending.filter(keep)[j]),
        forall|session: Seq<char>| #[trigger]
            session_count(pending.filter(keep), session) <= session_count(pending, session),
        pending.filter(keep).len() <= pending.len(),
    decreases pending.len(),
{
    reveal(Seq::filter);
    if pending.len() > 0 {
        let front = pending.drop_last();
        let last = pending.last();
        assert forall|i: int, j: int| 0 <= i < j < front.len() implies (
        #[trigger] front[i]).precedes(#[trigger] front[j]) by {
            assert(pending[i].precedes(pending[j]));
        }
        lemma_filter_keeps_queue(front, keep);
        let before = front.filter(keep);
        let after = pending.filter(keep);
        if keep(last) {
            assert(after == before.push(last));
            assert(after.drop_last() =~= before);
            assert forall|i: int, j: int| 0 <= i < j < after.len() implies (
            #[trigger] after[i]).precedes(#[trigger] after[j]) by {
                if j < before.len() {
                    assert(before[i].precedes(before[j]));
                } else {
                    assert(before.contains(before[i]));
                    front.lemma_filter_contains_rev(keep, before[i]);
                    let k = choose|k: int| 0 <= k < front.len() && front[k] == before[i];
                    assert(pending[k].precedes(pending[pending.len() - 1]));
                }
            }
        }
        assert forall|session: Seq<char>| #[trigger]
            session_count(after, session) <= session_count(pending, session) by {
            assert(session_count(before, session) <= session_count(front, session));
        }
    }
}

proof fn lemma_refreshed_is_well_formed(m: BrokerModel, now: Moment)
    requires
        m.well_formed(),
    ensures
        m.refreshed(now).well_formed(),
        m.refreshed(now).pending == m.pending.filter(
            |entry: PendingModel| entry.deadline > now.monotonic,
        ),
{
    let alive = |entry: PendingModel| entry.deadline > now.monotonic;
    let over = |entry: PendingModel| entry.deadline <= now.monotonic;
    let kept = m.pending.filter(alive);
    let gone = m.pending.filter(over);
    lemma_filter_keeps_queue(m.pending, alive);
    let middle = BrokerModel { pending: kept, ..m };
    assert forall|i: int| 0 <= i < kept.len() implies m.pending.contains(#[trigger] kept[i]) by {
        assert(kept.contains(kept[i]));
        m.pending.lemma_filter_contains_rev(alive, kept[i]);
    }
    assert forall|i: int, j: int|
        0 <= i < middle.pending.len() && 0 <= j < middle.tombstones.len() implies (
    #[trigger] middle.pending[i]).approval_id != (
    #[trigger] middle.tombstones[j]).approval_id by {
        assert(m.pending.contains(kept[i]));
        let k = choose|k: int| 0 <= k < m.pending.len() && m.pending[k] == kept[i];
        assert(m.pending[k].approval_id != m.tombstones[j].approval_id);
    }
    assert forall|i: int, j: int|
        0 <= i < middle.pending.len() && 0 <= j < middle.replay.len() implies !(
    #[trigger] middle.pending[i]).has_key(
        (#[trigger] middle.replay[j]).session_id,
        middle.replay[j].request_id,
    ) by {
        assert(m.pending.contains(kept[i]));
        let k = choose|k: int| 0 <= k < m.pending.len() && m.pending[k] == kept[i];
        assert(!m.pending[k].has_key(m.replay[j].session_id, m.replay[j].request_id));
    }
    assert forall|session: Seq<char>|
        #[trigger] session_count(middle.pending, session) <= middle.config.max_per_session by {
        assert(session_count(m.pending, session) <= m.config.max_per_session);
        assert(session_count(kept, session) <= session_count(m.pending, session));
    }
    assert forall|i: int, j: int| 0 <= i < j < middle.pending.len() implies (
    #[trigger] middle.pending[i]).precedes(#[trigger] middle.pending[j]) by {
        assert(kept[i].precedes(kept[j]));
    }
    assert(apart(kept, gone)) by {
        assert forall|i: int, k: int| 0 <= i < kept.len() && 0 <= k < gone.len() implies (
        #[trigger] kept[i]).approval_id != (#[trigger] gone[k]).approval_id && !kept[i].has_key(
            gone[k].request.session_id(),
            gone[k].request.request_id(),
        ) by {
            assert(m.pending.contains(kept[i]));
            assert(gone.contains(gone[k]));
            m.pending.lemma_filter_contains_rev(over, gone[k]);
            m.pending.lemma_filter_pred(over, k);
            m.pending.lemma_filter_pred(alive, i);
            let a = choose|a: int| 0 <= a < m.pending.len() && m.pending[a] == kept[i];
            let b = choose|b: int| 0 <= b < m.pending.len() && m.pending[b] == gone[k];
            assert(a != b);
            if a < b {
                assert(m.pending[a].precedes(m.pending[b]));
            } else {
                assert(m.pending[b].precedes(m.pending[a]));
            }
        }
    }
    lemma_finished_is_well_formed(
        middle,
        gone,
        TerminalState::Expired,
        DecisionSource::Deadline,
        Some(DecisionModel::Denied { reason: EXPIRED_REASON@ }),
        now,
    );
}

proof fn lemma_completed_is_well_formed(
    m: BrokerModel,
    i: int,
    state: TerminalState,
    source: DecisionSource,
    decision: Option<DecisionModel>,
    now: Moment,
)
    requires
        m.sound(),
        0 <= i < m.pending.len(),
    ensures
        m.completed(i, state, source, decision, now).well_formed(),
{
    let kept = m.pending.remove(i);
    let gone = seq![m.pending[i]];
    let middle = BrokerModel { pending: kept, ..m };
    assert forall|session: Seq<char>|
        #[trigger] session_count(middle.pending, session) <= middle.config.max_per_session by {
        lemma_session_count_remove(m.pending, i, session);
        assert(session_count(m.pending, session) <= m.config.max_per_session);
    }
    assert forall|a: int, b: int| 0 <= a < b < kept.len() implies (#[trigger] kept[a]).precedes(
        #[trigger] kept[b],
    ) by {
        let x = if a < i {
            a
        } else {
            a + 1
        };
        let y = if b < i {
            b
        } else {
            b + 1
        };
        assert(m.pending[x].precedes(m.pending[y]));
    }
    assert forall|a: int, j: int|
        0 <= a < middle.pending.len() && 0 <= j < middle.tombstones.len() implies (
    #[trigger] middle.pending[a]).approval_id != (
    #[trigger] middle.tombstones[j]).approval_id by {
        let x = if a < i {
            a
        } else {
            a + 1
        };
        assert(m.pending[x].approval_id != m.tombstones[j].approval_id);
    }
    assert forall|a: int, j: int|
        0 <= a < middle.pending.len() && 0 <= j < middle.replay.len() implies !(
    #[trigger] middle.pending[a]).has_key(
        (#[trigger] middle.replay[j]).session_id,
        middle.replay[j].request_id,
    ) by {
        let x = if a < i {
            a
        } else {
            a + 1
        };
        assert(!m.pending[x].has_key(m.replay[j].session_id, m.replay[j].request_id));
    }
    assert(apart(kept, gone)) by {
        assert forall|a: int, k: int| 0 <= a < kept.len() && 0 <= k < gone.len() implies (
        #[trigger] kept[a]).approval_id != (#[trigger] gone[k]).approval_id && !kept[a].has_key(
            gone[k].request.session_id(),
            gone[k].request.request_id(),
        ) by {
            if a < i {
                assert(m.pending[a].precedes(m.pending[i]));
            } else {
                assert(m.pending[i].precedes(m.pending[a + 1]));
            }
        }
    }
    lemma_finished_is_well_formed(middle, gone, state, source, decision, now);
}

proof fn lemma_goes_before_transitive(a: PendingModel, b: PendingModel, c: PendingModel)
    requires
        a.goes_before(b),
        b.goes_before(c),
    ensures
        a.goes_before(c),
{
    if a.received_at == b.received_at && b.received_at == c.received_at {
        lemma_before_transitive(a.approval_id, b.approval_id, c.approval_id);
    }
}

proof fn lemma_queue_position(pending: Seq<PendingModel>, entry: PendingModel)
    ensures
        0 <= queue_position(pending, entry) <= pending.len(),
        forall|i: int|
            0 <= i < queue_position(pending, entry) ==> (#[trigger] pending[i]).goes_before(entry),
        queue_position(pending, entry) < pending.len() ==> !pending[queue_position(
            pending,
            entry,
        )].goes_before(entry),
    decreases pending.len(),
{
    if pending.len() > 0 && pending[0].goes_before(entry) {
        let rest = pending.drop_first();
        lemma_queue_position(rest, entry);
        assert forall|i: int| 0 <= i < queue_position(pending, entry) implies (
        #[trigger] pending[i]).goes_before(entry) by {
            if i > 0 {
                assert(rest[i - 1] == pending[i]);
            }
        }
        if queue_position(rest, entry) < rest.len() {
            assert(rest[queue_position(rest, entry)] == pending[queue_position(pending, entry)]);
        }
    }
}

proof fn lemma_pending_position(pending: Seq<PendingModel>, id: Seq<char>)
    ensures
        match pending_position(pending, id) {
            Some(i) => 0 <= i < pending.len() && pending[i].approval_id == id,
            None => forall|i: int| 0 <= i < pending.len() ==> (#[trigger] pending[i]).approval_id != id,
        },
    decreases pending.len(),
{
    if pending.len() > 0 && pending[0].approval_id != id {
        let rest = pending.drop_first();
        lemma_pending_position(rest, id);
        match pending_position(rest, id) {
            Some(i) => {
                assert(rest[i] == pending[i + 1]);
            },
            None => {
                assert forall|i: int| 0 <= i < pending.len() implies (
                #[trigger] pending[i]).approval_id != id by {
                    if i > 0 {
                        assert(rest[i - 1] == pending[i]);
                    }
                }
            },
        }
    }
}

proof fn lemma_tombstone_position(tombstones: Seq<TombstoneModel>, id: Seq<char>)
    ensures
        match tombstone_position(tombstones, id) {
            Some(i) => 0 <= i < tombstones.len() && tombstones[i].approval_id == id,
            None => forall|i: int|
                0 <= i < tombstones.len() ==> (#[trigger] tombstones[i]).approval_id != id,
        },
    decreases tombstones.len(),
{
    if tombstones.len() > 0 && tombstones[0].approval_id != id {
        let rest = tombstones.drop_first();
        lemma_tombstone_position(rest, id);
        match tombstone_position(rest, id) {
            Some(i) => {
                assert(rest[i] == tombstones[i + 1]);
            },
            None => {
                assert forall|i: int| 0 <= i < tombstones.len() implies (
                #[trigger] tombstones[i]).approval_id != id by {
                    if i > 0 {
                        assert(rest[i - 1] == tombstones[i]);
                    }
                }
            },
        }
    }
}

proof fn lemma_registered_is_well_formed(
    m: BrokerModel,
    id: Seq<char>,
    incoming: IncomingModel,
    now: Moment,
)
    requires
        m.well_formed(),
        m.admission_error(incoming.request) is None,
        !m.knows_id(id),
    ensures
        m.registered(id, incoming, now).well_formed(),
{
    let entry = m.entry(id, incoming, now);
    let at = queue_position(m.pending, entry);
    let after = m.registered(id, incoming, now);
    lemma_queue_position(m.pending, entry);
    lemma_pending_position(m.pending, id);
    lemma_tombstone_position(m.tombstones, id);
    let session = incoming.request.session_id();
    let request = incoming.request.request_id();
    assert forall|i: int| 0 <= i < m.pending.len() implies !(#[trigger] m.pending[i]).has_key(
        session,
        request,
    ) by {}
    assert forall|other: Seq<char>|
        #[trigger] session_count(after.pending, other) <= after.config.max_per_session by {
        lemma_session_count_insert(m.pending, at, entry, other);
        assert(session_count(m.pending, other) <= m.config.max_per_session);
    }
    assert forall|i: int| at <= i < m.pending.len() implies entry.goes_before(
        #[trigger] m.pending[i],
    ) by {
        lemma_before_total(m.pending[at].approval_id, id);
        if i > at {
            assert(m.pending[at].precedes(m.pending[i]));
            lemma_goes_before_transitive(entry, m.pending[at], m.pending[i]);
        }
    }
    assert forall|i: int, j: int| 0 <= i < j < after.pending.len() implies (
    #[trigger] after.pending[i]).precedes(#[trigger] after.pending[j]) by {
        let x = if i < at {
            i
        } else {
            i - 1
        };
        let y = if j < at {
            j
        } else {
            j - 1
        };
        if i == at {
            assert(after.pending[i] == entry);
            assert(after.pending[j] == m.pending[y]);
        } else if j == at {
            assert(after.pending[j] == entry);
            assert(after.pending[i] == m.pending[x]);
        } else {
            assert(m.pending[x].precedes(m.pending[y]));
            assert(after.pending[i] == m.pending[x]);
            assert(after.pending[j] == m.pending[y]);
        }
    }
    assert forall|i: int, j: int|
        0 <= i < after.pending.len() && 0 <= j < after.tombstones.len() implies (
    #[trigger] after.pending[i]).approval_id != (
    #[trigger] after.tombstones[j]).approval_id by {
        if i < at {
            assert(after.pending[i] == m.pending[i]);
        } else if i > at {
            assert(after.pending[i] == m.pending[i - 1]);
        }
    }
    assert forall|i: int, j: int|
        0 <= i < after.pending.len() && 0 <= j < after.replay.len() implies !(
    #[trigger] after.pending[i]).has_key(
        (#[trigger] after.replay[j]).session_id,
        after.replay[j].request_id,
    ) by {
        if i < at {
            assert(after.pending[i] == m.pending[i]);
        } else if i > at {
            assert(after.pending[i] == m.pending[i - 1]);
        } else {
            assert(after.pending[i] == entry);
            assert(!(m.replay[j].session_id == session && m.replay[j].request_id == request));
        }
    }
}

// ---------------------------------------------------------------------------
// Steps
// ---------------------------------------------------------------------------

/// Keeps the replay entries whose deadline is still to come.
fn fresh_replay(entries: Vec<ReplayEntry>, now: Moment) -> (kept: Vec<ReplayEntry>)
    ensures
        replay_models(kept@) == replay_models(entries@).filter(
            |entry: ReplayModel| entry.deadline > now.monotonic,
        ),
{
    let mut kept: Vec<ReplayEntry> = Vec::new();
    let ghost all = replay_models(entries@);
    let ghost fresh = |entry: ReplayModel| entry.deadline > now.monotonic;
    assert(all.take(0).filter(fresh) =~= Seq::<ReplayModel>::empty());
    assert(replay_models(kept@) =~= Seq::<ReplayModel>::empty());
    for entry in it: entries
        invariant
            it.seq() == entries@,
            all == replay_models(entries@),
            fresh == |entry: ReplayModel| entry.deadline > now.monotonic,
            replay_models(kept@) == all.take(it.index()).filter(fresh),
    {
        let ghost i = it.index();
        let ghost before = kept@;
        proof {
            assert(all[i] == entry@);
            assert(all.take(i + 1) =~= all.take(i).push(entry@));
            all.take(i).lemma_filter_push(entry@, fresh);
        }
        if entry.deadline > now.monotonic {
            let ghost model = entry@;
            kept.push(entry);
            assert(replay_models(kept@) =~= replay_models(before).push(model));
        }
    }
    assert(all.take(all.len() as int) =~= all);
    kept
}

/// Parts the pending requests whose lease is still running from those whose lease ran out.
fn part_by_lease(pending: Vec<PendingApproval>, now: Moment) -> (result: (
    Vec<PendingApproval>,
    Vec<PendingApproval>,
))
    ensures
        pending_models(result.0@) == pending_models(pending@).filter(
            |entry: PendingModel| entry.deadline > now.monotonic,
        ),
        pending_models(result.1@) == pending_models(pending@).filter(
            |entry: PendingModel| entry.deadline <= now.monotonic,
        ),
{
    let mut kept: Vec<PendingApproval> = Vec::new();
    let mut gone: Vec<PendingApproval> = Vec::new();
    let ghost all = pending_models(pending@);
    let ghost alive = |entry: PendingModel| entry.deadline > now.monotonic;
    let ghost over = |entry: PendingModel| entry.deadline <= now.monotonic;
    proof {
        assert(all.take(0).filter(alive) =~= Seq::<PendingModel>::empty());
        assert(all.take(0).filter(over) =~= Seq::<PendingModel>::empty());
        assert(pending_models(kept@) =~= Seq::<PendingModel>::empty());
        assert(pending_models(gone@) =~= Seq::<PendingModel>::empty());
    }
    for entry in it: pending
        invariant
            it.seq() == pending@,
            all == pending_models(pending@),
            alive == |entry: PendingModel| entry.deadline > now.monotonic,
            over == |entry: PendingModel| entry.deadline <= now.monotonic,
            pending_models(kept@) == all.take(it.index()).filter(alive),
            pending_models(gone@) == all.take(it.index()).filter(over),
    {
        let ghost i = it.index();
        let ghost kept_before = kept@;
        let ghost gone_before = gone@;
        let ghost model = entry@;
        proof {
            assert(all[i] == entry@);
            assert(all.take(i + 1) =~= all.take(i).push(entry@));
            all.take(i).lemma_filter_push(entry@, alive);
            all.take(i).lemma_filter_push(entry@, over);
        }
        if entry.deadline > now.monotonic {
            kept.push(entry);
            assert(pending_models(kept@) =~= pending_models(kept_before).push(model));
        } else {
            gone.push(entry);
            assert(pending_models(gone@) =~= pending_models(gone_before).push(model));
        }
    }
    assert(all.take(all.len() as int) =~= all);
    (kept, gone)
}

/// Copies an optional decision.
fn clone_decision(decision: &Option<WebhookDecision>) -> (result: Option<WebhookDecision>)
    ensures
        decision_option(result) == decision_option(*decision),
{
    match decision {
        Some(value) => Some(value.clone()),
        None => None,
    }
}

impl Broker {
    /// A broker without any approvals or rules.
    pub fn new(config: BrokerConfig) -> (result: Self)
        ensures
            result@ == (BrokerModel {
                config,
                pending: Seq::empty(),
                replay: Seq::empty(),
                tombstones: Seq::empty(),
                rules: Seq::empty(),
                stopped: false,
                completions: Seq::empty(),
            }),
            result@.well_formed(),
    {
        let result = Broker {
            config,
            pending: Vec::new(),
            replay: Vec::new(),
            tombstones: VecDeque::new(),
            rules: SessionRules::default(),
            stopped: false,
            completions: Vec::new(),
        };
        proof {
            assert(result@ =~= BrokerModel {
                config,
                pending: Seq::empty(),
                replay: Seq::empty(),
                tombstones: Seq::empty(),
                rules: Seq::empty(),
                stopped: false,
                completions: Seq::empty(),
            });
            assert forall|session: Seq<char>|
                #[trigger] session_count(result@.pending, session) <= config.max_per_session by {}
        }
        result
    }

    /// The limits of the broker.
    pub fn config(&self) -> (result: BrokerConfig)
        ensures
            result == self@.config,
    {
        self.config
    }

    /// Whether every deadline counted from a moment can be represented.
    pub fn reaches(&self, now: Moment) -> (result: bool)
        ensures
            result == self@.config.reaches(now),
    {
        self.config.request_timeout <= u128::MAX - now.monotonic && self.config.tombstone_ttl
            <= u128::MAX - now.monotonic && self.config.request_timeout <= u128::MAX - now.wall
    }

    /// Forgets the replay entries and tombstones whose time is over.
    fn prune(&mut self, now: Moment)
        ensures
            final(self)@ == old(self)@.pruned(now),
    {
        let mut entries: Vec<ReplayEntry> = Vec::new();
        std::mem::swap(&mut entries, &mut self.replay);
        self.replay = fresh_replay(entries, now);
        let ghost first = old(self)@.tombstones;
        let limit: usize = self.config.tombstone_limit;
        let ghost mut dropped: int = 0;
        assert(first.skip(0) =~= first);
        while self.tombstones.len() > limit
            invariant
                limit == self.config.tombstone_limit,
                self.config == old(self).config,
                self.pending == old(self).pending,
                self.rules == old(self).rules,
                self.stopped == old(self).stopped,
                self.completions == old(self).completions,
                replay_models(self.replay@) == old(self)@.pruned(now).replay,
                first == old(self)@.tombstones,
                0 <= dropped <= first.len(),
                tombstone_models(self.tombstones@) == first.skip(dropped),
                dropped > 0 ==> first.len() - dropped >= limit,
            decreases self.tombstones@.len(),
        {
            let ghost before = self.tombstones@;
            let _ = self.tombstones.pop_front();
            proof {
                assert(tombstone_models(self.tombstones@) =~= tombstone_models(before).skip(1));
                assert(first.skip(dropped).skip(1) =~= first.skip(dropped + 1));
                dropped = dropped + 1;
            }
        }
        assert(tombstone_models(self.tombstones@) =~= newest(first, limit as nat));
        let cutoff: u128 = now.wall.saturating_sub(self.config.tombstone_ttl);
        let ghost line = now.wall - self.config.tombstone_ttl;
        let ghost kept = newest(first, limit as nat);
        while self.tombstones.len() > 0 && self.tombstones[0].completed_at < cutoff
            invariant
                self.config == old(self).config,
                self.pending == old(self).pending,
                self.rules == old(self).rules,
                self.stopped == old(self).stopped,
                self.completions == old(self).completions,
                replay_models(self.replay@) == old(self)@.pruned(now).replay,
                line == now.wall - self.config.tombstone_ttl,
                cutoff == if line < 0 {
                    0
                } else {
                    line
                },
                recent(tombstone_models(self.tombstones@), line) == recent(kept, line),
            decreases self.tombstones@.len(),
        {
            let ghost before = self.tombstones@;
            assert(tombstone_models(before)[0] == before[0]@);
            let _ = self.tombstones.pop_front();
            assert(tombstone_models(self.tombstones@) =~= tombstone_models(before).drop_first());
        }
        proof {
            let rest = tombstone_models(self.tombstones@);
            if self.tombstones@.len() > 0 {
                assert(rest[0] == self.tombstones@[0]@);
            }
            assert(recent(rest, line) == rest);
            assert(self@ =~= old(self)@.pruned(now));
        }
    }

    /// Brings requests that are no longer pending to their end.
    fn finish(
        &mut self,
        gone: Vec<PendingApproval>,
        state: TerminalState,
        source: DecisionSource,
        decision: Option<WebhookDecision>,
        now: Moment,
    )
        requires
            old(self)@.config.reaches(now),
        ensures
            final(self)@ == old(self)@.finished(
                pending_models(gone@),
                state,
                source,
                decision_option(decision),
                now,
            ),
    {
        let ghost all = pending_models(gone@);
        let ghost config = self.config;
        let ghost as_replay = |entry: PendingModel| entry.reservation(config, now);
        let ghost as_tombstone = |entry: PendingModel| entry.tombstone(state, now);
        let ghost as_completion = |entry: PendingModel| entry.completion(state, source, decision_option(decision), now);
        proof {
            assert(old(self)@.replay + all.take(0).map_values(as_replay) =~= old(self)@.replay);
            assert(old(self)@.tombstones + all.take(0).map_values(as_tombstone) =~= old(
                self,
            )@.tombstones);
            assert(old(self)@.completions + all.take(0).map_values(as_completion) =~= old(
                self,
            )@.completions);
        }
        for entry in it: gone
            invariant
                it.seq() == gone@,
                all == pending_models(gone@),
                config == self.config,
                self.config == old(self).config,
                self.pending == old(self).pending,
                self.rules == old(self).rules,
                self.stopped == old(self).stopped,
                config.reaches(now),
                as_replay == |entry: PendingModel| entry.reservation(config, now),
                as_tombstone == |entry: PendingModel| entry.tombstone(state, now),
                as_completion == |entry: PendingModel| entry.completion(state, source, decision_option(decision), now),
                replay_models(self.replay@) == old(self)@.replay + all.take(it.index()).map_values(
                    as_replay,
                ),
                tombstone_models(self.tombstones@) == old(self)@.tombstones + all.take(
                    it.index(),
                ).map_values(as_tombstone),
                completion_models(self.completions@) == old(self)@.completions + all.take(
                    it.index(),
                ).map_values(as_completion),
        {
            let ghost i = it.index();
            let ghost model = entry@;
            let ghost before = *self;
            proof {
                assert(all[i] == model);
                assert(all.take(i + 1) =~= all.take(i).push(model));
            }
            let wait_duration: u128 = now.wall.saturating_sub(entry.received_at);
            self.replay.push(
                ReplayEntry {
                    session_id: entry.request.session_id().to_owned(),
                    request_id: entry.request.request_id().to_owned(),
                    deadline: now.monotonic + self.config.tombstone_ttl,
                },
            );
            self.completions.push(
                Completion {
                    approval_id: entry.approval_id.clone(),
                    state,
                    source,
                    decision: clone_decision(&decision),
                    wait_duration,
                },
            );
            self.tombstones.push_back(
                Tombstone {
                    approval_id: entry.approval_id,
                    capability_type: entry.request.capability_type().to_owned(),
                    state,
                    received_at: entry.received_at,
                    completed_at: now.wall,
                    wait_duration,
                    wire_adapter_version: WIRE_ADAPTER_VERSION,
                },
            );
            proof {
                assert(replay_models(self.replay@) =~= replay_models(before.replay@).push(
                    as_replay(model),
                ));
                assert(tombstone_models(self.tombstones@) =~= tombstone_models(
                    before.tombstones@,
                ).push(as_tombstone(model)));
                assert(completion_models(self.completions@) =~= completion_models(
                    before.completions@,
                ).push(as_completion(model)));
                assert(all.take(i + 1).map_values(as_replay) =~= all.take(i).map_values(
                    as_replay,
                ).push(as_replay(model)));
                assert(all.take(i + 1).map_values(as_tombstone) =~= all.take(i).map_values(
                    as_tombstone,
                ).push(as_tombstone(model)));
                assert(all.take(i + 1).map_values(as_completion) =~= all.take(i).map_values(
                    as_completion,
                ).push(as_completion(model)));
            }
        }
        proof {
            assert(all.take(all.len() as int) =~= all);
        }
        self.prune(now);
    }

    /// Expires every pending request whose lease ran out.
    fn refresh(&mut self, now: Moment)
        requires
            old(self)@.well_formed(),
            old(self)@.config.reaches(now),
        ensures
            final(self)@ == old(self)@.refreshed(now),
            final(self)@.well_formed(),
    {
        let mut pending: Vec<PendingApproval> = Vec::new();
        std::mem::swap(&mut pending, &mut self.pending);
        let (kept, gone) = part_by_lease(pending, now);
        self.pending = kept;
        proof {
            lemma_refreshed_is_well_formed(old(self)@, now);
            assert(self@ =~= BrokerModel {
                pending: old(self)@.pending.filter(
                    |entry: PendingModel| entry.deadline > now.monotonic,
                ),
                ..old(self)@
            });
        }
        self.finish(
            gone,
            TerminalState::Expired,
            DecisionSource::Deadline,
            Some(denied(EXPIRED_REASON)),
            now,
        );
    }

    /// The position of a pending request.
    fn position(&self, approval_id: &ApprovalId) -> (result: Option<usize>)
        ensures
            match result {
                Some(i) => i < self.pending@.len() && pending_position(
                    self@.pending,
                    approval_id@,
                ) == Some(i as int),
                None => pending_position(self@.pending, approval_id@) is None,
            },
    {
        let ghost all = self@.pending;
        assert(all.skip(0) =~= all);
        for i in 0..self.pending.len()
            invariant
                all == self@.pending,
                all.len() == self.pending@.len(),
                pending_position(all, approval_id@) == match pending_position(
                    all.skip(i as int),
                    approval_id@,
                ) {
                    Some(k) => Some(k + i),
                    None => None::<int>,
                },
        {
            assert(all.skip(i as int)[0] == all[i as int]);
            assert(all[i as int] == self.pending@[i as int]@);
            if same(self.pending[i].approval_id.as_str(), approval_id.as_str()) {
                return Some(i);
            }
            assert(all.skip(i as int).drop_first() =~= all.skip(i + 1));
        }
        None
    }

    /// The position of the tombstone of an approval.
    fn tombstone_at(&self, approval_id: &ApprovalId) -> (result: Option<usize>)
        ensures
            match result {
                Some(i) => i < self.tombstones@.len() && tombstone_position(
                    self@.tombstones,
                    approval_id@,
                ) == Some(i as int),
                None => tombstone_position(self@.tombstones, approval_id@) is None,
            },
    {
        let ghost all = self@.tombstones;
        assert(all.skip(0) =~= all);
        for i in 0..self.tombstones.len()
            invariant
                all == self@.tombstones,
                all.len() == self.tombstones@.len(),
                tombstone_position(all, approval_id@) == match tombstone_position(
                    all.skip(i as int),
                    approval_id@,
                ) {
                    Some(k) => Some(k + i),
                    None => None::<int>,
                },
        {
            assert(all.skip(i as int)[0] == all[i as int]);
            assert(all[i as int] == self.tombstones@[i as int]@);
            if same(self.tombstones[i].approval_id.as_str(), approval_id.as_str()) {
                return Some(i);
            }
            assert(all.skip(i as int).drop_first() =~= all.skip(i + 1));
        }
        None
    }

    /// Whether a request with these identifiers is pending or was completed lately.
    fn knows_key(&self, session_id: &str, request_id: &str) -> (result: bool)
        ensures
            result == self@.knows_key(session_id@, request_id@),
    {
        for i in 0..self.replay.len()
            invariant
                forall|j: int|
                    0 <= j < i ==> !((#[trigger] self@.replay[j]).session_id == session_id@
                        && self@.replay[j].request_id == request_id@),
        {
            assert(self@.replay[i as int] == self.replay@[i as int]@);
            if same(self.replay[i].session_id.as_str(), session_id) && same(
                self.replay[i].request_id.as_str(),
                request_id,
            ) {
                return true;
            }
        }
        for i in 0..self.pending.len()
            invariant
                forall|j: int|
                    0 <= j < self@.replay.len() ==> !((#[trigger] self@.replay[j]).session_id
                        == session_id@ && self@.replay[j].request_id == request_id@),
                forall|j: int|
                    0 <= j < i ==> !(#[trigger] self@.pending[j]).has_key(session_id@, request_id@),
        {
            assert(self@.pending[i as int] == self.pending@[i as int]@);
            if same(self.pending[i].request.session_id(), session_id) && same(
                self.pending[i].request.request_id(),
                request_id,
            ) {
                return true;
            }
        }
        false
    }

    /// How many pending requests belong to a session.
    fn session_count(&self, session_id: &str) -> (result: usize)
        ensures
            result == session_count(self@.pending, session_id@),
    {
        let mut count: usize = 0;
        let ghost all = self@.pending;
        for i in 0..self.pending.len()
            invariant
                all == self@.pending,
                all.len() == self.pending@.len(),
                count <= i,
                count == session_count(all.take(i as int), session_id@),
        {
            assert(all.take(i + 1).drop_last() =~= all.take(i as int));
            assert(all[i as int] == self.pending@[i as int]@);
            if same(self.pending[i].request.session_id(), session_id) {
                count += 1;
            }
        }
        assert(all.take(all.len() as int) =~= all);
        count
    }

    /// Why a request is not admitted, if it is not.
    fn admission_error(&self, request: &KnownApprovalRequest) -> (result: Option<BrokerError>)
        ensures
            match self@.admission_error(request@) {
                None => result is None,
                Some(refusal) => result matches Some(error) && error@ == refusal,
            },
    {
        if self.knows_key(request.session_id(), request.request_id()) {
            return Some(BrokerError::DuplicateRequest);
        }
        if self.session_count(request.session_id()) >= self.config.max_per_session {
            return Some(BrokerError::PerSessionCapacity);
        }
        if self.pending.len() >= self.config.max_pending {
            return Some(BrokerError::GlobalCapacity);
        }
        None
    }

    /// Whether an approval with this identifier is pending or remembered.
    pub fn knows_id(&self, approval_id: &ApprovalId) -> (result: bool)
        ensures
            result == self@.knows_id(approval_id@),
    {
        self.position(approval_id).is_some() || self.tombstone_at(approval_id).is_some()
    }

    /// Removes a pending request and brings it to its end.
    fn complete(
        &mut self,
        i: usize,
        state: TerminalState,
        source: DecisionSource,
        decision: Option<WebhookDecision>,
        now: Moment,
    )
        requires
            old(self)@.well_formed(),
            old(self)@.config.reaches(now),
            i < old(self).pending@.len(),
        ensures
            final(self)@ == old(self)@.completed(
                i as int,
                state,
                source,
                decision_option(decision),
                now,
            ),
            final(self)@.well_formed(),
    {
        let entry = self.pending.remove(i);
        let ghost model = entry@;
        let mut gone: Vec<PendingApproval> = Vec::new();
        gone.push(entry);
        proof {
            let m = old(self)@;
            assert(m.pending[i as int] == model);
            assert(pending_models(gone@) =~= seq![model]);
            assert(self@ =~= BrokerModel { pending: m.pending.remove(i as int), ..m });
            lemma_completed_is_well_formed(
                m,
                i as int,
                state,
                source,
                decision_option(decision),
                now,
            );
        }
        self.finish(gone, state, source, decision, now);
    }

    /// Registers an admitted request under an identifier that is not in use.
    pub fn register(
        &mut self,
        approval_id: ApprovalId,
        incoming: IncomingApproval,
        now: Moment,
    ) -> (result: Submission)
        requires
            old(self)@.well_formed(),
            old(self)@.config.reaches(now),
            old(self)@.admission_error(incoming.request@) is None,
            !old(self)@.knows_id(approval_id@),
        ensures
            result.approval_id@ == approval_id@,
            result.deadline == now.monotonic + old(self)@.config.request_timeout,
            final(self)@ == old(self)@.registered(approval_id@, incoming@, now),
            final(self)@.well_formed(),
    {
        let id = approval_id.clone();
        let deadline: u128 = now.monotonic + self.config.request_timeout;
        let entry = PendingApproval {
            approval_id,
            claimed_backend: incoming.claimed_backend,
            raw_request: incoming.raw_request,
            request: incoming.request,
            detail: incoming.detail,
            received_at: now.wall,
            deadline_wall: now.wall + self.config.request_timeout,
            deadline,
        };
        let ghost model = entry@;
        let ghost all = self@.pending;
        proof {
            assert(model == self@.entry(approval_id@, incoming@, now));
            assert(all.skip(0) =~= all);
        }
        let mut at: usize = 0;
        while at < self.pending.len() && (self.pending[at].received_at < entry.received_at || (
        self.pending[at].received_at == entry.received_at && is_before(
            self.pending[at].approval_id.as_str(),
            entry.approval_id.as_str(),
        )))
            invariant
                *self == *old(self),
                all == self@.pending,
                all.len() == self.pending@.len(),
                at <= all.len(),
                model == entry@,
                queue_position(all, model) == at + queue_position(all.skip(at as int), model),
            decreases all.len() - at,
        {
            proof {
                assert(all.skip(at as int)[0] == all[at as int]);
                assert(all[at as int] == self.pending@[at as int]@);
                assert(all.skip(at as int).drop_first() =~= all.skip(at + 1));
            }
            at += 1;
        }
        proof {
            if at < all.len() {
                assert(all.skip(at as int)[0] == all[at as int]);
                assert(all[at as int] == self.pending@[at as int]@);
            }
            lemma_registered_is_well_formed(self@, approval_id@, incoming@, now);
        }
        self.pending.insert(at, entry);
        proof {
            assert(pending_models(self.pending@) =~= all.insert(at as int, model));
            assert(self@ =~= old(self)@.registered(approval_id@, incoming@, now));
        }
        Submission { approval_id: id, deadline }
    }

}

// ---------------------------------------------------------------------------
// Operations
// ---------------------------------------------------------------------------

/// The draft of the rule to remember for a request: with the request's own path or an edited one
/// that still covers it.
pub open spec fn draft_to_remember(
    request: RequestModel,
    action: RuleAction,
    scope: RuleScope,
    path: Option<Seq<char>>,
) -> Result<DraftModel, PolicyErrorModel> {
    match draft_from(request, action, scope) {
        Err(error) => Err(error),
        Ok(draft) => {
            let edited = match path {
                Some(path) => DraftModel { path, ..draft },
                None => draft,
            };
            match edited.source_error(request) {
                Some(error) => Err(error),
                None => Ok(edited),
            }
        },
    }
}

/// The reason that a remembered decision gives for its own request.
pub open spec fn reason_or_default(reason: Option<Seq<char>>) -> Seq<char> {
    match reason {
        Some(text) => text,
        None => DEFAULT_DENIAL_REASON@,
    }
}

/// The decision on the request that a rule is remembered from.
pub open spec fn decision_for(action: RuleAction, reason: Option<Seq<char>>) -> DecisionModel {
    match action {
        RuleAction::Allow => DecisionModel::Granted,
        RuleAction::Deny => DecisionModel::Denied { reason: reason_or_default(reason) },
    }
}

/// Why a decision is refused on its own account, if it is.
pub open spec fn decision_error(decision: DecisionModel) -> Option<BrokerErrorModel> {
    match decision {
        DecisionModel::Granted => None,
        DecisionModel::Denied { reason } => reason_error(reason),
    }
}

/// The state that a decision leads to.
pub open spec fn state_for(decision: DecisionModel) -> TerminalState {
    match decision {
        DecisionModel::Granted => TerminalState::Granted,
        DecisionModel::Denied { .. } => TerminalState::Denied,
    }
}

impl BrokerModel {
    /// The state after a decision on a pending approval, or why there is none. Expiry and pruning
    /// are already done.
    pub open spec fn decided(
        self,
        id: Seq<char>,
        decision: DecisionModel,
        now: Moment,
    ) -> Result<BrokerModel, BrokerErrorModel> {
        match pending_position(self.pending, id) {
            None => Err(self.missing_error(id)),
            Some(i) => Ok(
                self.completed(
                    i,
                    state_for(decision),
                    DecisionSource::Control,
                    Some(decision),
                    now,
                ),
            ),
        }
    }

    /// The state after a decision that is remembered as a rule, or why there is none. Expiry and
    /// pruning are already done.
    pub open spec fn remembered(
        self,
        id: Seq<char>,
        action: RuleAction,
        scope: RuleScope,
        path: Option<Seq<char>>,
        reason: Option<Seq<char>>,
        now: Moment,
    ) -> Result<BrokerModel, BrokerErrorModel> {
        match pending_position(self.pending, id) {
            None => Err(self.missing_error(id)),
            Some(i) => match draft_to_remember(self.pending[i].request, action, scope, path) {
                Err(error) => Err(BrokerErrorModel::Policy(error)),
                Ok(draft) => match inserted(self.rules, draft.compiled()) {
                    None => Err(BrokerErrorModel::Policy(PolicyErrorModel::Capacity)),
                    Some(rules) => Ok(
                        (BrokerModel { rules, ..self }).completed(
                            i,
                            state_for(decision_for(action, reason)),
                            DecisionSource::ControlSessionRule,
                            Some(decision_for(action, reason)),
                            now,
                        ),
                    ),
                },
            },
        }
    }

    /// The state after a shutdown.
    pub open spec fn shut_down(self, now: Moment) -> BrokerModel {
        (BrokerModel { pending: Seq::empty(), rules: Seq::empty(), stopped: true, ..self }).finished(
            self.pending,
            TerminalState::Denied,
            DecisionSource::Shutdown,
            Some(DecisionModel::Denied { reason: SHUTDOWN_REASON@ }),
            now,
        )
    }
}

impl Broker {
    /// Registers a request under a new random identifier.
    ///
    /// Duplicates, a full session and a full queue are refused in this order. Whether an identifier
    /// can be drawn depends on the operating system.
    pub fn submit(&mut self, incoming: IncomingApproval, now: Moment) -> (result: Result<
        Submission,
        BrokerError,
    >)
        requires
            old(self)@.well_formed(),
            old(self)@.config.reaches(now),
        ensures
            final(self)@.well_formed(),
            match old(self)@.pruned(now).admission_error(incoming.request@) {
                Some(refusal) => final(self)@ == old(self)@.pruned(now) && (result matches Err(error)
                    && error@ == refusal),
                None => match result {
                    Ok(submission) => {
                        &&& is_approval_id(submission.approval_id@)
                        &&& !old(self)@.pruned(now).knows_id(submission.approval_id@)
                        &&& submission.deadline == now.monotonic + old(self)@.config.request_timeout
                        &&& final(self)@ == old(self)@.pruned(now).registered(
                            submission.approval_id@,
                            incoming@,
                            now,
                        )
                    },
                    Err(error) => error@ is Random && final(self)@ == old(self)@.pruned(now),
                },
            },
    {
        proof {
            lemma_pruned_is_well_formed(self@, now);
        }
        self.prune(now);
        if let Some(error) = self.admission_error(&incoming.request) {
            return Err(error);
        }
        let mut attempts: u64 = 0;
        while attempts < u64::MAX
            invariant
                self@ == old(self)@.pruned(now),
                self@.well_formed(),
                self@.config.reaches(now),
                self@.config == old(self)@.config,
                self@.admission_error(incoming.request@) is None,
            decreases u64::MAX - attempts,
        {
            match ApprovalId::random() {
                Ok(candidate) => {
                    if !self.knows_id(&candidate) {
                        return Ok(self.register(candidate, incoming, now));
                    }
                },
                Err(error) => return Err(error),
            }
            attempts += 1;
        }
        Err(BrokerError::Random("no unused approval ID was drawn".to_owned()))
    }

    /// Takes a request in: denies it after a shutdown, lets the rules decide it, or registers it.
    pub fn ingress(&mut self, incoming: IncomingApproval, now: Moment) -> (result: Result<
        IngressOutcome,
        BrokerError,
    >)
        requires
            old(self)@.well_formed(),
            old(self)@.config.reaches(now),
        ensures
            final(self)@.well_formed(),
            ({
                let before = old(self)@.pruned(now);
                let request = incoming.request@;
                if before.stopped {
                    &&& final(self)@ == before
                    &&& result matches Ok(IngressOutcome::Automatic(decision)) && decision@ == (
                    DecisionModel::Denied { reason: SHUTDOWN_REASON@ })
                } else {
                    match deciding_rule(before.rules, request) {
                        Some(rule) => if before.knows_key(
                            request.session_id(),
                            request.request_id(),
                        ) {
                            &&& final(self)@ == before
                            &&& result matches Err(error) && error@
                                == BrokerErrorModel::DuplicateRequest
                        } else {
                            &&& final(self)@ == before.reserved(request, now)
                            &&& result matches Ok(IngressOutcome::Automatic(decision)) && decision@
                                == rule.decision()
                        },
                        None => match before.admission_error(request) {
                            Some(refusal) => {
                                &&& final(self)@ == before
                                &&& result matches Err(error) && error@ == refusal
                            },
                            None => match result {
                                Ok(IngressOutcome::Pending(submission)) => {
                                    &&& is_approval_id(submission.approval_id@)
                                    &&& !before.knows_id(submission.approval_id@)
                                    &&& submission.deadline == now.monotonic
                                        + before.config.request_timeout
                                    &&& final(self)@ == before.registered(
                                        submission.approval_id@,
                                        incoming@,
                                        now,
                                    )
                                },
                                Ok(IngressOutcome::Automatic(_)) => false,
                                Err(error) => error@ is Random && final(self)@ == before,
                            },
                        },
                    }
                }
            }),
    {
        proof {
            lemma_pruned_is_well_formed(self@, now);
            lemma_pruning_twice(self@, now);
        }
        self.prune(now);
        if self.stopped {
            return Ok(IngressOutcome::Automatic(denied(SHUTDOWN_REASON)));
        }
        let decision = match self.rules.evaluate(&incoming.request) {
            Some(rule) => Some(rule.decision()),
            None => None,
        };
        match decision {
            Some(decision) => {
                if self.knows_key(incoming.request.session_id(), incoming.request.request_id()) {
                    return Err(BrokerError::DuplicateRequest);
                }
                let ghost before = *self;
                self.replay.push(
                    ReplayEntry {
                        session_id: incoming.request.session_id().to_owned(),
                        request_id: incoming.request.request_id().to_owned(),
                        deadline: now.monotonic + self.config.tombstone_ttl,
                    },
                );
                proof {
                    assert(self@ =~= before@.reserved(incoming.request@, now));
                    lemma_reserved_is_well_formed(before@, incoming.request@, now);
                }
                Ok(IngressOutcome::Automatic(decision))
            },
            None => match self.submit(incoming, now) {
                Ok(submission) => Ok(IngressOutcome::Pending(submission)),
                Err(error) => Err(error),
            },
        }
    }

    /// The draft of the rule that would decide a request; after a shutdown no rule does.
    pub fn matching_rule(&self, request: &KnownApprovalRequest) -> (result: Option<RuleDraft>)
        ensures
            match deciding_rule(self@.rules, request@) {
                Some(rule) if !self@.stopped => result matches Some(draft) && draft@
                    == rule.draft(),
                _ => result is None,
            },
    {
        if self.stopped {
            return None;
        }
        match self.rules.evaluate(request) {
            Some(rule) => Some(rule.draft()),
            None => None,
        }
    }

    /// The queue, in order.
    pub fn list(&mut self, now: Moment) -> (result: Vec<ApprovalSummary>)
        requires
            old(self)@.well_formed(),
            old(self)@.config.reaches(now),
        ensures
            final(self)@ == old(self)@.refreshed(now),
            final(self)@.well_formed(),
            summary_models(result@) == final(self)@.pending.map_values(
                |entry: PendingModel| entry.summary(),
            ),
            result@.len() == final(self)@.pending.len(),
            forall|i: int|
                0 <= i < result@.len() ==> {
                    let entry = final(self)@.pending[i];
                    &&& (#[trigger] result@[i]).approval_id@ == entry.approval_id
                    &&& result@[i].received_at@ == timestamp_text(entry.received_at)
                    &&& result@[i].deadline@ == timestamp_text(entry.deadline_wall)
                },
    {
        self.refresh(now);
        let mut result: Vec<ApprovalSummary> = Vec::new();
        for i in 0..self.pending.len()
            invariant
                result@.len() == i,
                forall|j: int| 0 <= j < i ==> #[trigger] result@[j]@ == self.pending@[j]@.summary(),
        {
            let entry = &self.pending[i];
            result.push(
                ApprovalSummary {
                    approval_id: entry.approval_id.clone(),
                    capability_type: entry.request.capability_type().to_owned(),
                    summary: entry.detail.summary.clone(),
                    received_at: timestamp(entry.received_at),
                    deadline: timestamp(entry.deadline_wall),
                },
            );
        }
        assert(summary_models(result@) =~= self@.pending.map_values(
            |entry: PendingModel| entry.summary(),
        ));
        proof {
            assert forall|i: int| 0 <= i < result@.len() implies (
            #[trigger] result@[i]).approval_id@ == self@.pending[i].approval_id
                && result@[i].received_at@ == timestamp_text(self@.pending[i].received_at)
                && result@[i].deadline@ == timestamp_text(self@.pending[i].deadline_wall) by {
                assert(result@[i]@ == self.pending@[i]@.summary());
            }
        }
        result
    }

    /// How many requests wait for a decision.
    pub fn pending_count(&mut self, now: Moment) -> (result: usize)
        requires
            old(self)@.well_formed(),
            old(self)@.config.reaches(now),
        ensures
            final(self)@ == old(self)@.refreshed(now),
            final(self)@.well_formed(),
            result == final(self)@.pending.len(),
    {
        self.refresh(now);
        self.pending.len()
    }

    /// Everything of a pending approval, or what is remembered of a completed one.
    pub fn show(&mut self, approval_id: &ApprovalId, now: Moment) -> (result: Result<
        ShowApproval,
        BrokerError,
    >)
        requires
            old(self)@.well_formed(),
            old(self)@.config.reaches(now),
        ensures
            final(self)@ == old(self)@.refreshed(now),
            final(self)@.well_formed(),
            match pending_position(final(self)@.pending, approval_id@) {
                Some(i) => result matches Ok(shown) && shown@ == ShowModel::Pending(
                    final(self)@.pending[i].shown(),
                ),
                None => match tombstone_position(final(self)@.tombstones, approval_id@) {
                    Some(i) => result matches Ok(shown) && shown@ == ShowModel::Completed(
                        final(self)@.tombstones[i].shown(),
                    ),
                    None => result matches Err(error) && error@ == BrokerErrorModel::NotFound,
                },
            },
    {
        self.refresh(now);
        if let Some(i) = self.position(approval_id) {
            let entry = &self.pending[i];
            assert(self@.pending[i as int] == entry@);
            return Ok(
                ShowApproval::Pending(
                    ApprovalDetail {
                        approval_id: entry.approval_id.clone(),
                        received_at: timestamp(entry.received_at),
                        deadline: timestamp(entry.deadline_wall),
                        content: entry.detail.clone(),
                        debug: Some(
                            DebugDetail {
                                claimed_backend: entry.claimed_backend.clone(),
                                source_kind: entry.request.source_kind(),
                                wire_request: entry.request.clone(),
                            },
                        ),
                    },
                ),
            );
        }
        match self.tombstone_at(approval_id) {
            Some(i) => {
                let entry = &self.tombstones[i];
                assert(self@.tombstones[i as int] == entry@);
                Ok(
                    ShowApproval::Completed(
                        CompletedApproval {
                            approval_id: entry.approval_id.clone(),
                            state: entry.state,
                            completed_at: timestamp(entry.completed_at),
                        },
                    ),
                )
            },
            None => Err(BrokerError::NotFound),
        }
    }

    /// Why an approval that is not pending cannot be decided.
    fn missing_error(&self, approval_id: &ApprovalId) -> (result: BrokerError)
        ensures
            result@ == self@.missing_error(approval_id@),
    {
        if self.tombstone_at(approval_id).is_some() {
            BrokerError::NotPending
        } else {
            BrokerError::NotFound
        }
    }

    /// Applies one decision to one pending approval.
    ///
    /// A refused reason changes nothing. Otherwise requests whose lease ran out expire first.
    pub fn decide(
        &mut self,
        approval_id: &ApprovalId,
        decision: WebhookDecision,
        now: Moment,
    ) -> (result: Result<TerminalState, BrokerError>)
        requires
            old(self)@.well_formed(),
            old(self)@.config.reaches(now),
        ensures
            final(self)@.well_formed(),
            match decision_error(decision@) {
                Some(refusal) => *final(self) == *old(self) && (result matches Err(error) && error@
                    == refusal),
                None => match old(self)@.refreshed(now).decided(approval_id@, decision@, now) {
                    Ok(after) => final(self)@ == after && result == Ok::<TerminalState, BrokerError>(
                        state_for(decision@),
                    ),
                    Err(refusal) => final(self)@ == old(self)@.refreshed(now) && (result matches Err(
                        error,
                    ) && error@ == refusal),
                },
            },
            result matches Ok(state) ==> (state is Granted <==> decision is Granted) && (state
                is Denied <==> decision is Denied),
    {
        let state = match &decision {
            WebhookDecision::Granted => TerminalState::Granted,
            WebhookDecision::Denied { reason } => {
                if let Err(error) = validate_denial_reason(reason.as_str()) {
                    return Err(error);
                }
                TerminalState::Denied
            },
        };
        self.refresh(now);
        match self.position(approval_id) {
            Some(i) => {
                self.complete(i, state, DecisionSource::Control, Some(decision), now);
                Ok(state)
            },
            None => Err(self.missing_error(approval_id)),
        }
    }

    /// Applies one decision to one pending approval and remembers it as a rule, both or neither.
    ///
    /// The rule has the request's access mode, and its path is the request's own unless an edited
    /// one is given. The reason is about this request alone.
    pub fn decide_and_remember(
        &mut self,
        approval_id: &ApprovalId,
        action: RuleAction,
        scope: RuleScope,
        path: Option<String>,
        reason: Option<String>,
        now: Moment,
    ) -> (result: Result<TerminalState, BrokerError>)
        requires
            old(self)@.well_formed(),
            old(self)@.config.reaches(now),
        ensures
            final(self)@.well_formed(),
            match decision_error(decision_for(action, text_option(reason))) {
                Some(refusal) => *final(self) == *old(self) && (result matches Err(error) && error@
                    == refusal),
                None => match old(self)@.refreshed(now).remembered(
                    approval_id@,
                    action,
                    scope,
                    text_option(path),
                    text_option(reason),
                    now,
                ) {
                    Ok(after) => final(self)@ == after && result == Ok::<TerminalState, BrokerError>(
                        state_for(decision_for(action, text_option(reason))),
                    ),
                    Err(refusal) => final(self)@ == old(self)@.refreshed(now) && (result matches Err(
                        error,
                    ) && error@ == refusal),
                },
            },
            result matches Ok(state) ==> (state is Granted <==> action is Allow) && (state is Denied
                <==> action is Deny),
    {
        let decision = match action {
            RuleAction::Allow => WebhookDecision::Granted,
            RuleAction::Deny => {
                let reason = match reason {
                    Some(reason) => reason,
                    None => DEFAULT_DENIAL_REASON.to_owned(),
                };
                if let Err(error) = validate_denial_reason(reason.as_str()) {
                    return Err(error);
                }
                WebhookDecision::Denied { reason }
            },
        };
        self.refresh(now);
        self.remember(approval_id, action, scope, path, decision, now)
    }

    /// Applies a decision to a pending approval and inserts its rule, both or neither.
    fn remember(
        &mut self,
        approval_id: &ApprovalId,
        action: RuleAction,
        scope: RuleScope,
        path: Option<String>,
        decision: WebhookDecision,
        now: Moment,
    ) -> (result: Result<TerminalState, BrokerError>)
        requires
            old(self)@.well_formed(),
            old(self)@.config.reaches(now),
        ensures
            final(self)@.well_formed(),
            match pending_position(old(self)@.pending, approval_id@) {
                None => final(self)@ == old(self)@ && (result matches Err(error) && error@ == old(
                    self,
                )@.missing_error(approval_id@)),
                Some(i) => match draft_to_remember(
                    old(self)@.pending[i].request,
                    action,
                    scope,
                    text_option(path),
                ) {
                    Err(refusal) => final(self)@ == old(self)@ && (result matches Err(error)
                        && error@ == BrokerErrorModel::Policy(refusal)),
                    Ok(draft) => match inserted(old(self)@.rules, draft.compiled()) {
                        None => final(self)@ == old(self)@ && (result matches Err(error) && error@
                            == BrokerErrorModel::Policy(PolicyErrorModel::Capacity)),
                        Some(rules) => final(self)@ == (BrokerModel {
                            rules,
                            ..old(self)@
                        }).completed(
                            i,
                            state_for(decision@),
                            DecisionSource::ControlSessionRule,
                            Some(decision@),
                            now,
                        ) && result == Ok::<TerminalState, BrokerError>(state_for(decision@)),
                    },
                },
            },
    {
        let i = match self.position(approval_id) {
            Some(i) => i,
            None => return Err(self.missing_error(approval_id)),
        };
        assert(self@.pending[i as int] == self.pending@[i as int]@);
        let rule = match rule_to_remember(&self.pending[i].request, action, scope, path) {
            Ok(rule) => rule,
            Err(error) => return Err(BrokerError::Policy(error)),
        };
        let ghost before = self@;
        let ghost model = rule@;
        proof {
            inserting_keeps_rules_in_order(before.rules, model);
        }
        if let Err(error) = self.rules.insert(rule) {
            assert(self@ =~= before);
            return Err(BrokerError::Policy(error));
        }
        assert(self@ =~= BrokerModel { rules: inserted(before.rules, model)->0, ..before });
        let state = match &decision {
            WebhookDecision::Granted => TerminalState::Granted,
            WebhookDecision::Denied { .. } => TerminalState::Denied,
        };
        self.complete(i, state, DecisionSource::ControlSessionRule, Some(decision), now);
        Ok(state)
    }

    /// Gives up on a request whose sender is gone.
    pub fn cancel(&mut self, approval_id: &ApprovalId, now: Moment) -> (result: Result<
        (),
        BrokerError,
    >)
        requires
            old(self)@.well_formed(),
            old(self)@.config.reaches(now),
        ensures
            final(self)@.well_formed(),
            match pending_position(old(self)@.pending, approval_id@) {
                Some(i) => result is Ok && final(self)@ == old(self)@.completed(
                    i,
                    TerminalState::Cancelled,
                    DecisionSource::Disconnect,
                    None,
                    now,
                ),
                None => *final(self) == *old(self) && (result matches Err(error) && error@
                    == BrokerErrorModel::NotFound),
            },
            result is Ok ==> {
                let told = final(self)@.completions.last();
                &&& told.approval_id == approval_id@
                &&& told.state is Cancelled
                &&& told.source is Disconnect
                &&& told.decision is None
            },
    {
        match self.position(approval_id) {
            Some(i) => {
                proof {
                    lemma_pending_position(self@.pending, approval_id@);
                    ends_are_told_once(
                        self@,
                        i as int,
                        TerminalState::Cancelled,
                        DecisionSource::Disconnect,
                        None,
                        now,
                    );
                }
                self.complete(i, TerminalState::Cancelled, DecisionSource::Disconnect, None, now);
                Ok(())
            },
            None => Err(BrokerError::NotFound),
        }
    }

    /// Denies a pending request whose lease is over.
    pub fn expire(&mut self, approval_id: &ApprovalId, now: Moment) -> (result: Option<
        WebhookDecision,
    >)
        requires
            old(self)@.well_formed(),
            old(self)@.config.reaches(now),
        ensures
            final(self)@.well_formed(),
            match pending_position(old(self)@.pending, approval_id@) {
                Some(i) => {
                    &&& result matches Some(decision) && decision@ == (DecisionModel::Denied {
                        reason: EXPIRED_REASON@,
                    })
                    &&& final(self)@ == old(self)@.completed(
                        i,
                        TerminalState::Expired,
                        DecisionSource::Deadline,
                        Some(DecisionModel::Denied { reason: EXPIRED_REASON@ }),
                        now,
                    )
                },
                None => *final(self) == *old(self) && result is None,
            },
            result matches Some(decision) ==> {
                let told = final(self)@.completions.last();
                &&& decision@ is Denied
                &&& told.approval_id == approval_id@
                &&& told.state is Expired
                &&& told.source is Deadline
                &&& told.decision == Some(decision@)
            },
    {
        match self.position(approval_id) {
            Some(i) => {
                let decision = denied(EXPIRED_REASON);
                proof {
                    lemma_pending_position(self@.pending, approval_id@);
                    ends_are_told_once(
                        self@,
                        i as int,
                        TerminalState::Expired,
                        DecisionSource::Deadline,
                        Some(decision@),
                        now,
                    );
                }
                self.complete(
                    i,
                    TerminalState::Expired,
                    DecisionSource::Deadline,
                    Some(decision.clone()),
                    now,
                );
                Some(decision)
            },
            None => None,
        }
    }

    /// Denies every pending request, forgets the rules and from now on denies whatever comes in.
    pub fn shutdown(&mut self, now: Moment)
        requires
            old(self)@.well_formed(),
            old(self)@.config.reaches(now),
        ensures
            final(self)@ == old(self)@.shut_down(now),
            final(self)@.well_formed(),
    {
        let mut gone: Vec<PendingApproval> = Vec::new();
        std::mem::swap(&mut gone, &mut self.pending);
        self.stopped = true;
        let _ = self.rules.clear();
        proof {
            let m = BrokerModel {
                pending: Seq::empty(),
                rules: Seq::empty(),
                stopped: true,
                ..old(self)@
            };
            assert(self@ =~= m);
            assert forall|session: Seq<char>|
                #[trigger] session_count(m.pending, session) <= m.config.max_per_session by {}
            lemma_finished_is_well_formed(
                m,
                pending_models(gone@),
                TerminalState::Denied,
                DecisionSource::Shutdown,
                Some(DecisionModel::Denied { reason: SHUTDOWN_REASON@ }),
                now,
            );
        }
        self.finish(
            gone,
            TerminalState::Denied,
            DecisionSource::Shutdown,
            Some(denied(SHUTDOWN_REASON)),
            now,
        );
    }

    /// The number of session rules.
    pub fn session_rule_count(&self) -> (result: usize)
        ensures
            result == self@.rules.len(),
    {
        self.rules.count()
    }

    /// The drafts of the session rules, in order.
    pub fn session_rules(&self) -> (result: Vec<RuleDraft>)
        ensures
            draft_models(result@) == Seq::new(self@.rules.len(), |i: int| self@.rules[i].draft()),
    {
        self.rules.drafts()
    }

    /// Removes all session rules and tells how many there were.
    pub fn clear_session_rules(&mut self) -> (result: usize)
        requires
            old(self)@.well_formed(),
        ensures
            final(self)@ == (BrokerModel { rules: Seq::empty(), ..old(self)@ }),
            final(self)@.well_formed(),
            result == old(self)@.rules.len(),
            final(self)@.rules.len() == 0,
            final(self)@.pending == old(self)@.pending,
    {
        let count = self.rules.clear();
        assert(self@ =~= BrokerModel { rules: Seq::empty(), ..old(self)@ });
        count
    }

    /// Replaces all session rules by the given ones, or none of them if any is refused.
    pub fn replace_session_rules(&mut self, drafts: Vec<RuleDraft>) -> (result: Result<
        usize,
        BrokerError,
    >)
        requires
            old(self)@.well_formed(),
        ensures
            final(self)@.well_formed(),
            if drafts@.len() > MAX_SESSION_RULES {
                *final(self) == *old(self) && (result matches Err(error) && error@
                    == BrokerErrorModel::Policy(PolicyErrorModel::Capacity))
            } else {
                match policy_of(draft_models(drafts@)) {
                    Ok(rules) => {
                        &&& final(self)@ == (BrokerModel {
                            rules: Seq::new(rules.len(), |i: int| rules[i].compiled()),
                            ..old(self)@
                        })
                        &&& result == Ok::<usize, BrokerError>(drafts@.len() as usize)
                    },
                    Err(refusal) => *final(self) == *old(self) && (result matches Err(error)
                        && error@ == BrokerErrorModel::Policy(refusal)),
                }
            },
    {
        if drafts.len() > MAX_SESSION_RULES {
            return Err(BrokerError::Policy(PolicyError::Capacity));
        }
        let ghost given = draft_models(drafts@);
        let drafts = match validate_policy(drafts) {
            Ok(drafts) => drafts,
            Err(error) => return Err(BrokerError::Policy(error)),
        };
        let ghost normal = draft_models(drafts@);
        proof {
            crate::policy::policies_are_valid_and_distinct(given);
        }
        let mut rules: Vec<SessionRule> = Vec::new();
        for i in 0..drafts.len()
            invariant
                normal == draft_models(drafts@),
                normal == Seq::new(given.len(), |i: int| given[i].normalized()),
                normal.len() == given.len(),
                normal.len() == drafts@.len(),
                forall|j: int|
                    0 <= j < given.len() ==> crate::policy::is_rule_path(
                        (#[trigger] given[j]).path,
                    ),
                *self == *old(self),
                rules@.len() == i,
                forall|j: int| 0 <= j < i ==> #[trigger] rules@[j]@ == normal[j].compiled(),
        {
            proof {
                assert(normal[i as int] == given[i as int].normalized());
                crate::policy::normalizing_keeps_components(given[i as int].path);
                assert(crate::policy::is_rule_path(normal[i as int].path));
                assert(drafts@[i as int]@ == normal[i as int]);
            }
            match drafts[i].compile() {
                Ok(rule) => rules.push(rule),
                Err(error) => {
                    assert(false);
                    return Err(BrokerError::Policy(error));
                },
            }
        }
        let count = rules.len();
        let ghost models = crate::policy::rule_models(rules@);
        self.rules.replace(rules);
        proof {
            assert(models =~= Seq::new(normal.len(), |i: int| normal[i].compiled()));
            assert(models =~= Seq::new(given.len(), |i: int| given[i].normalized().compiled()));
            lemma_compiled_rules(given, models);
            assert(self@ =~= BrokerModel { rules: models, ..old(self)@ });
        }
        Ok(count)
    }

    /// Hands out the ends of approvals that nobody was told yet.
    pub fn take_completions(&mut self) -> (result: Vec<Completion>)
        requires
            old(self)@.well_formed(),
        ensures
            completion_models(result@) == old(self)@.completions,
            result@.len() == old(self)@.completions.len(),
            forall|i: int|
                0 <= i < result@.len() ==> {
                    let told = old(self)@.completions[i];
                    &&& (#[trigger] result@[i]).approval_id@ == told.approval_id
                    &&& result@[i].state == told.state
                },
            final(self)@.completions.len() == 0,
            final(self)@.pending == old(self)@.pending,
            final(self)@ == (BrokerModel { completions: Seq::empty(), ..old(self)@ }),
            final(self)@.well_formed(),
    {
        let mut result: Vec<Completion> = Vec::new();
        std::mem::swap(&mut result, &mut self.completions);
        assert(self@ =~= BrokerModel { completions: Seq::empty(), ..old(self)@ });
        proof {
            lists_are_seen_in_order(Seq::empty(), result@);
            let told = completion_models(result@);
            assert forall|i: int| 0 <= i < result@.len() implies (
            #[trigger] result@[i]).approval_id@ == told[i].approval_id && result@[i].state
                == told[i].state by {
                assert(told[i] == result@[i]@);
            }
        }
        result
    }
}

/// Compiles the rule to remember for a request.
fn rule_to_remember(
    request: &KnownApprovalRequest,
    action: RuleAction,
    scope: RuleScope,
    path: Option<String>,
) -> (result: Result<SessionRule, PolicyError>)
    ensures
        match draft_to_remember(request@, action, scope, text_option(path)) {
            Ok(draft) => result matches Ok(rule) && rule@ == draft.compiled()
                && rule@.well_formed(),
            Err(refusal) => result matches Err(error) && error@ == refusal,
        },
{
    let mut draft = match RuleDraft::from_request(request, action, scope) {
        Ok(draft) => draft,
        Err(error) => return Err(error),
    };
    if let Some(path) = path {
        draft.path = path;
    }
    if let Err(error) = draft.validate_source(request) {
        return Err(error);
    }
    draft.compile()
}

/// What ended the wait for a decision.
pub enum WaitOutcome {
    Decided(WebhookDecision),
    ChannelClosed,
    LeaseOver,
}

impl Submission {
    /// The answer to the sender of a request once its wait ended.
    pub fn wait(self, outcome: WaitOutcome, broker: &mut Broker, now: Moment) -> (result:
        WebhookDecision)
        requires
            old(broker)@.well_formed(),
            old(broker)@.config.reaches(now),
        ensures
            final(broker)@.well_formed(),
            match outcome {
                WaitOutcome::Decided(decision) => result@ == decision@ && *final(broker) == *old(
                    broker,
                ),
                WaitOutcome::ChannelClosed => result@ == (DecisionModel::Denied {
                    reason: STOPPED_REASON@,
                }) && *final(broker) == *old(broker),
                WaitOutcome::LeaseOver => result@ == (DecisionModel::Denied {
                    reason: EXPIRED_REASON@,
                }) && match pending_position(old(broker)@.pending, self.approval_id@) {
                    Some(i) => final(broker)@ == old(broker)@.completed(
                        i,
                        TerminalState::Expired,
                        DecisionSource::Deadline,
                        Some(DecisionModel::Denied { reason: EXPIRED_REASON@ }),
                        now,
                    ),
                    None => *final(broker) == *old(broker),
                },
            },
            result@ is Granted ==> outcome is Decided,
            outcome matches WaitOutcome::Decided(decision) ==> (result is Granted <==> decision
                is Granted),
    {
        match outcome {
            WaitOutcome::Decided(decision) => decision,
            WaitOutcome::ChannelClosed => denied(STOPPED_REASON),
            WaitOutcome::LeaseOver => match broker.expire(&self.approval_id, now) {
                Some(decision) => decision,
                None => denied(EXPIRED_REASON),
            },
        }
    }
}

proof fn lemma_filter_twice(entries: Seq<ReplayModel>, now: Moment)
    ensures
        entries.filter(|entry: ReplayModel| entry.deadline > now.monotonic).filter(
            |entry: ReplayModel| entry.deadline > now.monotonic,
        ) == entries.filter(|entry: ReplayModel| entry.deadline > now.monotonic),
    decreases entries.len(),
{
    let fresh = |entry: ReplayModel| entry.deadline > now.monotonic;
    reveal(Seq::filter);
    if entries.len() > 0 {
        let front = entries.drop_last();
        lemma_filter_twice(front, now);
        let kept = front.filter(fresh);
        if fresh(entries.last()) {
            assert(kept.push(entries.last()).drop_last() =~= kept);
        }
    }
}

proof fn lemma_pruning_twice(m: BrokerModel, now: Moment)
    ensures
        m.pruned(now).pruned(now) == m.pruned(now),
{
    let limit = m.config.tombstone_limit as nat;
    let line = now.wall - m.config.tombstone_ttl;
    lemma_filter_twice(m.replay, now);
    let once = recent(newest(m.tombstones, limit), line);
    let start = lemma_pruned_tombstones(m.tombstones, limit, line);
    assert(newest(once, limit) == once);
    lemma_recent_twice(newest(m.tombstones, limit), line);
    assert(m.pruned(now).pruned(now) =~= m.pruned(now));
}

proof fn lemma_recent_twice(tombstones: Seq<TombstoneModel>, cutoff: int)
    ensures
        recent(recent(tombstones, cutoff), cutoff) == recent(tombstones, cutoff),
    decreases tombstones.len(),
{
    if tombstones.len() > 0 && tombstones[0].completed_at < cutoff {
        lemma_recent_twice(tombstones.drop_first(), cutoff);
    }
}

proof fn lemma_reserved_is_well_formed(m: BrokerModel, request: RequestModel, now: Moment)
    requires
        m.well_formed(),
        !m.knows_key(request.session_id(), request.request_id()),
    ensures
        m.reserved(request, now).well_formed(),
{
    let after = m.reserved(request, now);
    assert forall|i: int, j: int|
        0 <= i < after.pending.len() && 0 <= j < after.replay.len() implies !(
    #[trigger] after.pending[i]).has_key(
        (#[trigger] after.replay[j]).session_id,
        after.replay[j].request_id,
    ) by {
        assert(after.pending[i] == m.pending[i]);
        if j < m.replay.len() {
            assert(after.replay[j] == m.replay[j]);
        } else {
            assert(!m.pending[i].has_key(request.session_id(), request.request_id()));
        }
    }
}

proof fn lemma_compiled_rules(given: Seq<DraftModel>, rules: Seq<RuleModel>)
    requires
        given.len() <= MAX_SESSION_RULES,
        forall|i: int|
            0 <= i < given.len() ==> crate::policy::is_rule_path((#[trigger] given[i]).path),
        forall|i: int, j: int|
            0 <= i < j < given.len() ==> !(#[trigger] given[i]).normalized().same_key(
                (#[trigger] given[j]).normalized(),
            ),
        rules == Seq::new(given.len(), |i: int| given[i].normalized().compiled()),
    ensures
        all_well_formed(rules),
        distinct_keys(rules),
        rules.len() <= MAX_SESSION_RULES,
{
    assert forall|i: int| 0 <= i < rules.len() implies (#[trigger] rules[i]).well_formed()
        && rules[i].path == given[i].normalized().path by {
        crate::policy::compiling_is_idempotent(given[i]);
        crate::policy::normalizing_keeps_components(given[i].path);
    }
    assert forall|i: int, j: int| 0 <= i < j < rules.len() implies !(
    #[trigger] rules[i]).same_key(#[trigger] rules[j]) by {
        assert(!given[i].normalized().same_key(given[j].normalized()));
    }
}

// ---------------------------------------------------------------------------
// Laws
// ---------------------------------------------------------------------------

/// Every pending request is found by its identifier.
pub proof fn pending_requests_are_found(m: BrokerModel, i: int)
    requires
        m.well_formed(),
        0 <= i < m.pending.len(),
    ensures
        pending_position(m.pending, m.pending[i].approval_id) == Some(i),
{
    let id = m.pending[i].approval_id;
    lemma_pending_position(m.pending, id);
    let k = pending_position(m.pending, id)->0;
    if k < i {
        assert(m.pending[k].precedes(m.pending[i]));
    } else if i < k {
        assert(m.pending[i].precedes(m.pending[k]));
    }
}

proof fn lemma_removed_is_gone(m: BrokerModel, i: int)
    requires
        m.well_formed(),
        0 <= i < m.pending.len(),
    ensures
        pending_position(m.pending.remove(i), m.pending[i].approval_id) is None,
{
    let id = m.pending[i].approval_id;
    let rest = m.pending.remove(i);
    lemma_pending_position(rest, id);
    if let Some(k) = pending_position(rest, id) {
        if k < i {
            assert(m.pending[k].precedes(m.pending[i]));
        } else {
            assert(m.pending[i].precedes(m.pending[k + 1]));
        }
    }
}

/// A request is decided once: afterwards it is no longer pending, so every further decision on it is
/// refused, and exactly one completion with exactly that decision was added.
pub proof fn requests_are_decided_once(
    m: BrokerModel,
    id: Seq<char>,
    first: DecisionModel,
    second: DecisionModel,
    now: Moment,
    later: Moment,
)
    requires
        m.well_formed(),
        m.decided(id, first, now) is Ok,
    ensures
        ({
            let after = m.decided(id, first, now)->Ok_0;
            let i = pending_position(m.pending, id)->0;
            &&& pending_position(after.pending, id) is None
            &&& after.decided(id, second, later) is Err
            &&& after.completions == m.completions.push(
                m.pending[i].completion(
                    state_for(first),
                    DecisionSource::Control,
                    Some(first),
                    now,
                ),
            )
        }),
{
    let i = pending_position(m.pending, id)->0;
    let after = m.decided(id, first, now)->Ok_0;
    lemma_pending_position(m.pending, id);
    lemma_removed_is_gone(m, i);
    assert(after.pending == m.pending.remove(i));
    let told = m.pending[i].completion(state_for(first), DecisionSource::Control, Some(first), now);
    assert(seq![m.pending[i]].map_values(
        |entry: PendingModel|
            entry.completion(state_for(first), DecisionSource::Control, Some(first), now),
    ) =~= seq![told]);
    assert(after.completions =~= m.completions.push(told));
}

/// An approval that ended is never decided again, neither once nor with a rule, while it is
/// remembered.
pub proof fn ended_approvals_stay_ended(
    m: BrokerModel,
    id: Seq<char>,
    decision: DecisionModel,
    action: RuleAction,
    scope: RuleScope,
    path: Option<Seq<char>>,
    reason: Option<Seq<char>>,
    now: Moment,
)
    requires
        m.well_formed(),
        tombstone_position(m.tombstones, id) is Some,
    ensures
        m.decided(id, decision, now) == Err::<BrokerModel, BrokerErrorModel>(
            BrokerErrorModel::NotPending,
        ),
        m.remembered(id, action, scope, path, reason, now) == Err::<BrokerModel, BrokerErrorModel>(
            BrokerErrorModel::NotPending,
        ),
{
    lemma_tombstone_position(m.tombstones, id);
    lemma_pending_position(m.pending, id);
    let j = tombstone_position(m.tombstones, id)->0;
    if let Some(i) = pending_position(m.pending, id) {
        assert(m.pending[i].approval_id != m.tombstones[j].approval_id);
    }
}

/// A request whose lease ran out cannot be decided any more, whatever the decision; it was told
/// that it expired.
pub proof fn expired_requests_cannot_be_decided(
    m: BrokerModel,
    i: int,
    decision: DecisionModel,
    now: Moment,
)
    requires
        m.well_formed(),
        0 <= i < m.pending.len(),
        m.pending[i].deadline <= now.monotonic,
    ensures
        m.refreshed(now).decided(m.pending[i].approval_id, decision, now) is Err,
        m.refreshed(now).completions.contains(
            m.pending[i].completion(
                TerminalState::Expired,
                DecisionSource::Deadline,
                Some(DecisionModel::Denied { reason: EXPIRED_REASON@ }),
                now,
            ),
        ),
{
    let alive = |entry: PendingModel| entry.deadline > now.monotonic;
    let over = |entry: PendingModel| entry.deadline <= now.monotonic;
    let id = m.pending[i].approval_id;
    let kept = m.pending.filter(alive);
    let gone = m.pending.filter(over);
    lemma_refreshed_is_well_formed(m, now);
    lemma_pending_position(kept, id);
    if let Some(k) = pending_position(kept, id) {
        assert(kept.contains(kept[k]));
        m.pending.lemma_filter_contains_rev(alive, kept[k]);
        m.pending.lemma_filter_pred(alive, k);
        let x = choose|x: int| 0 <= x < m.pending.len() && m.pending[x] == kept[k];
        if x < i {
            assert(m.pending[x].precedes(m.pending[i]));
        } else if i < x {
            assert(m.pending[i].precedes(m.pending[x]));
        }
    }
    m.pending.lemma_filter_contains(over, i);
    let g = choose|g: int| 0 <= g < gone.len() && gone[g] == m.pending[i];
    let tell = |entry: PendingModel|
        entry.completion(
            TerminalState::Expired,
            DecisionSource::Deadline,
            Some(DecisionModel::Denied { reason: EXPIRED_REASON@ }),
            now,
        );
    let after = m.refreshed(now);
    assert(after.completions =~= m.completions + gone.map_values(tell));
    assert(after.completions[m.completions.len() + g] == tell(m.pending[i]));
}

/// A request whose lease is still running is untouched by the expiry of others.
pub proof fn running_leases_are_kept(m: BrokerModel, i: int, now: Moment)
    requires
        m.well_formed(),
        0 <= i < m.pending.len(),
        m.pending[i].deadline > now.monotonic,
    ensures
        m.refreshed(now).pending.contains(m.pending[i]),
{
    let alive = |entry: PendingModel| entry.deadline > now.monotonic;
    m.pending.lemma_filter_contains(alive, i);
    lemma_refreshed_is_well_formed(m, now);
}

/// The end of one request leaves every other pending request as it is.
pub proof fn other_requests_are_untouched(
    m: BrokerModel,
    i: int,
    j: int,
    state: TerminalState,
    source: DecisionSource,
    decision: Option<DecisionModel>,
    now: Moment,
)
    requires
        m.well_formed(),
        0 <= i < m.pending.len(),
        0 <= j < m.pending.len(),
        i != j,
    ensures
        m.completed(i, state, source, decision, now).pending.contains(m.pending[j]),
        m.completed(i, state, source, decision, now).rules == m.rules,
{
    let after = m.completed(i, state, source, decision, now);
    let k = if j < i {
        j
    } else {
        j - 1
    };
    assert(after.pending[k] == m.pending[j]);
}

/// Until its time is over, a completed request is refused as a duplicate when it comes again.
pub proof fn completed_requests_are_not_replayed(
    m: BrokerModel,
    i: int,
    state: TerminalState,
    source: DecisionSource,
    decision: Option<DecisionModel>,
    now: Moment,
    later: Moment,
)
    requires
        m.well_formed(),
        m.config.reaches(now),
        0 <= i < m.pending.len(),
        now.monotonic <= later.monotonic < now.monotonic + m.config.tombstone_ttl,
    ensures
        m.completed(i, state, source, decision, now).pruned(later).admission_error(
            m.pending[i].request,
        ) == Some(BrokerErrorModel::DuplicateRequest),
{
    let entry = m.pending[i];
    let kept = entry.reservation(m.config, now);
    let after = m.completed(i, state, source, decision, now);
    let last = after.pruned(later);
    let gone = seq![entry];
    let extended = m.replay + gone.map_values(
        |entry: PendingModel| entry.reservation(m.config, now),
    );
    let fresh_now = |entry: ReplayModel| entry.deadline > now.monotonic;
    let fresh_later = |entry: ReplayModel| entry.deadline > later.monotonic;
    assert(extended[m.replay.len() as int] == kept);
    extended.lemma_filter_contains(fresh_now, m.replay.len() as int);
    assert(after.replay == extended.filter(fresh_now));
    let k = choose|k: int| 0 <= k < after.replay.len() && after.replay[k] == kept;
    after.replay.lemma_filter_contains(fresh_later, k);
    let l = choose|l: int| 0 <= l < last.replay.len() && last.replay[l] == kept;
    assert(last.replay[l].session_id == entry.request.session_id());
}

/// A request that a rule decided is refused as a duplicate when it comes again, until its time is
/// over.
pub proof fn automatic_decisions_are_not_repeated(
    m: BrokerModel,
    request: RequestModel,
    now: Moment,
    later: Moment,
)
    requires
        m.config.reaches(now),
        later.monotonic < now.monotonic + m.config.tombstone_ttl,
    ensures
        m.reserved(request, now).pruned(later).knows_key(request.session_id(), request.request_id()),
{
    let after = m.reserved(request, now);
    let last = after.pruned(later);
    let fresh = |entry: ReplayModel| entry.deadline > later.monotonic;
    let k = m.replay.len() as int;
    after.replay.lemma_filter_contains(fresh, k);
    let l = choose|l: int| 0 <= l < last.replay.len() && last.replay[l] == after.replay[k];
    assert(last.replay[l].session_id == request.session_id());
}

/// Deciding with a rule takes exactly the source request out of the queue and adds exactly a rule
/// that applies to it.
pub proof fn remembering_is_about_the_source(
    m: BrokerModel,
    id: Seq<char>,
    action: RuleAction,
    scope: RuleScope,
    path: Option<Seq<char>>,
    reason: Option<Seq<char>>,
    now: Moment,
)
    requires
        m.well_formed(),
        m.remembered(id, action, scope, path, reason, now) is Ok,
    ensures
        ({
            let after = m.remembered(id, action, scope, path, reason, now)->Ok_0;
            let i = pending_position(m.pending, id)->0;
            let draft = draft_to_remember(m.pending[i].request, action, scope, path)->Ok_0;
            &&& after.pending == m.pending.remove(i)
            &&& inserted(m.rules, draft.compiled()) == Some(after.rules)
            &&& draft.compiled().action == action
            &&& draft.compiled().applies_to(m.pending[i].request)
        }),
{
}

/// A shutdown tells every pending request that it is denied, and leaves neither requests nor rules.
pub proof fn shutdown_denies_everyone(m: BrokerModel, now: Moment)
    requires
        m.well_formed(),
    ensures
        m.shut_down(now).stopped,
        m.shut_down(now).pending.len() == 0,
        m.shut_down(now).rules.len() == 0,
        m.shut_down(now).completions == m.completions + m.pending.map_values(
            |entry: PendingModel|
                entry.completion(
                    TerminalState::Denied,
                    DecisionSource::Shutdown,
                    Some(DecisionModel::Denied { reason: SHUTDOWN_REASON@ }),
                    now,
                ),
        ),
{
}

/// A new request never displaces another: whatever was pending still is, with its deadline.
pub proof fn registering_displaces_nothing(
    m: BrokerModel,
    id: Seq<char>,
    incoming: IncomingModel,
    now: Moment,
    i: int,
)
    requires
        m.well_formed(),
        0 <= i < m.pending.len(),
    ensures
        m.registered(id, incoming, now).pending.contains(m.pending[i]),
        m.registered(id, incoming, now).pending.contains(m.entry(id, incoming, now)),
{
    let entry = m.entry(id, incoming, now);
    let at = queue_position(m.pending, entry);
    let after = m.registered(id, incoming, now).pending;
    lemma_queue_position(m.pending, entry);
    let k = if i < at {
        i
    } else {
        i + 1
    };
    assert(after[k] == m.pending[i]);
    assert(after[at] == entry);
}

// ---------------------------------------------------------------------------
// Laws of single steps
// ---------------------------------------------------------------------------

/// A request is refused as a duplicate exactly if a pending or a reserved request has both its
/// session and its request identifier. So one that differs in either from all of them never is.
pub proof fn only_replays_are_duplicates(m: BrokerModel, request: RequestModel)
    ensures
        m.admission_error(request) == Some(BrokerErrorModel::DuplicateRequest) <==> (exists|i: int|
            0 <= i < m.pending.len() && (#[trigger] m.pending[i]).request.session_id()
                == request.session_id() && m.pending[i].request.request_id()
                == request.request_id()) || (exists|i: int|
            0 <= i < m.replay.len() && (#[trigger] m.replay[i]).session_id == request.session_id()
                && m.replay[i].request_id == request.request_id()),
{
    if exists|i: int|
        0 <= i < m.pending.len() && (#[trigger] m.pending[i]).request.session_id()
            == request.session_id() && m.pending[i].request.request_id() == request.request_id() {
        let i = choose|i: int|
            0 <= i < m.pending.len() && (#[trigger] m.pending[i]).request.session_id()
                == request.session_id() && m.pending[i].request.request_id()
                == request.request_id();
        assert(m.pending[i].has_key(request.session_id(), request.request_id()));
    }
}

/// The requests of a session among the pending ones.
pub open spec fn of_session(pending: Seq<PendingModel>, session_id: Seq<char>) -> Seq<PendingModel> {
    pending.filter(|entry: PendingModel| entry.request.session_id() == session_id)
}

/// A request that is no duplicate is admitted exactly if its session and the queue have room. A
/// full session is told before a full queue.
pub proof fn requests_are_admitted_while_there_is_room(m: BrokerModel, request: RequestModel)
    requires
        m.admission_error(request) != Some(BrokerErrorModel::DuplicateRequest),
    ensures
        ({
            let waiting = of_session(m.pending, request.session_id()).len();
            &&& waiting >= m.config.max_per_session <==> m.admission_error(request) == Some(
                BrokerErrorModel::PerSessionCapacity,
            )
            &&& waiting < m.config.max_per_session && m.pending.len() >= m.config.max_pending
                <==> m.admission_error(request) == Some(BrokerErrorModel::GlobalCapacity)
            &&& waiting < m.config.max_per_session && m.pending.len() < m.config.max_pending
                <==> m.admission_error(request) is None
        }),
{
    lemma_session_count_is_len(m.pending, request.session_id());
}

proof fn lemma_session_count_is_len(pending: Seq<PendingModel>, session_id: Seq<char>)
    ensures
        session_count(pending, session_id) == of_session(pending, session_id).len(),
    decreases pending.len(),
{
    reveal(Seq::filter);
    if pending.len() > 0 {
        lemma_session_count_is_len(pending.drop_last(), session_id);
    }
}

/// Pruning touches neither the queue nor the rules nor what is still to be told. It keeps exactly
/// the reservations whose time is not over.
pub proof fn reservations_last_until_their_deadline(m: BrokerModel, now: Moment, entry: ReplayModel)
    ensures
        m.pruned(now).replay.contains(entry) <==> m.replay.contains(entry) && entry.deadline
            > now.monotonic,
        m.pruned(now).pending == m.pending,
        m.pruned(now).rules == m.rules,
        m.pruned(now).completions == m.completions,
        m.pruned(now).stopped == m.stopped,
        m.pruned(now).config == m.config,
{
    let fresh = |entry: ReplayModel| entry.deadline > now.monotonic;
    let kept = m.replay.filter(fresh);
    if kept.contains(entry) {
        let k = choose|k: int| 0 <= k < kept.len() && kept[k] == entry;
        m.replay.lemma_filter_pred(fresh, k);
        m.replay.lemma_filter_contains_rev(fresh, entry);
    }
    if m.replay.contains(entry) && entry.deadline > now.monotonic {
        let k = choose|k: int| 0 <= k < m.replay.len() && m.replay[k] == entry;
        m.replay.lemma_filter_contains(fresh, k);
    }
}

/// Pruning forgets completed approvals from the oldest on, and only those beyond the limit or past
/// their time.
pub proof fn the_newest_approvals_are_remembered(m: BrokerModel, now: Moment)
    ensures
        m.pruned(now).tombstones.is_suffix_of(m.tombstones),
        m.pruned(now).tombstones.len() <= m.config.tombstone_limit,
        m.pruned(now).tombstones.len() > 0 ==> m.pruned(now).tombstones[0].completed_at
            + m.config.tombstone_ttl >= now.wall,
        m.tombstones.len() <= m.config.tombstone_limit && (m.tombstones.len() == 0
            || m.tombstones[0].completed_at + m.config.tombstone_ttl >= now.wall)
            ==> m.pruned(now).tombstones == m.tombstones,
        m.tombstones.len() > 0 && m.config.tombstone_limit > 0 && m.tombstones.last().completed_at
            + m.config.tombstone_ttl >= now.wall ==> m.pruned(now).tombstones.len() > 0
            && m.pruned(now).tombstones.last() == m.tombstones.last(),
{
    let cutoff = now.wall - m.config.tombstone_ttl;
    let limit = m.config.tombstone_limit as nat;
    let start = lemma_pruned_tombstones(m.tombstones, limit, cutoff);
    let kept = m.pruned(now).tombstones;
    lemma_recent_starts(newest(m.tombstones, limit), cutoff);
    assert(kept =~= m.tombstones.subrange(m.tombstones.len() - kept.len(), m.tombstones.len() as int));
}

proof fn lemma_recent_starts(tombstones: Seq<TombstoneModel>, cutoff: int)
    ensures
        recent(tombstones, cutoff).len() > 0 ==> recent(tombstones, cutoff)[0].completed_at
            >= cutoff,
        tombstones.len() > 0 && tombstones.last().completed_at >= cutoff ==> recent(
            tombstones,
            cutoff,
        ).len() > 0,
    decreases tombstones.len(),
{
    if tombstones.len() > 0 && tombstones[0].completed_at < cutoff {
        lemma_recent_starts(tombstones.drop_first(), cutoff);
    }
}

/// What whoever waits is told, and what is remembered, is about the request itself and says how,
/// when and after how long it ended; its identifiers stay reserved for the retention time.
pub proof fn ends_are_told_as_they_were(
    entry: PendingModel,
    config: BrokerConfig,
    state: TerminalState,
    source: DecisionSource,
    decision: Option<DecisionModel>,
    now: Moment,
)
    requires
        config.reaches(now),
    ensures
        ({
            let told = entry.completion(state, source, decision, now);
            let kept = entry.tombstone(state, now);
            let waited = if now.wall >= entry.received_at {
                now.wall - entry.received_at
            } else {
                0
            };
            &&& told.approval_id == entry.approval_id && kept.approval_id == entry.approval_id
            &&& told.state == state && kept.state == state
            &&& told.source == source
            &&& told.decision == decision
            &&& told.wait_duration == waited && kept.wait_duration == waited
            &&& kept.capability_type == entry.request.capability_type()
            &&& kept.received_at == entry.received_at
            &&& kept.completed_at == now.wall
            &&& kept.wire_adapter_version == 1
        }),
        entry.reservation(config, now).session_id == entry.request.session_id(),
        entry.reservation(config, now).request_id == entry.request.request_id(),
        entry.reservation(config, now).deadline == now.monotonic + config.tombstone_ttl,
{
}

/// Whether the end of a request is told and remembered as one with a decision: granted exactly if
/// the decision grants, denied exactly if it denies.
pub open spec fn ends_with_decision(
    m: BrokerModel,
    after: BrokerModel,
    id: Seq<char>,
    source: DecisionSource,
    decision: DecisionModel,
) -> bool {
    &&& after.completions.len() == m.completions.len() + 1
    &&& after.completions.drop_last() == m.completions
    &&& after.completions.last().approval_id == id
    &&& after.completions.last().source == source
    &&& after.completions.last().decision == Some(decision)
    &&& after.completions.last().state is Granted <==> decision is Granted
    &&& after.completions.last().state is Denied <==> decision is Denied
    &&& forall|k: int|
        0 <= k < after.tombstones.len() && (#[trigger] after.tombstones[k]).approval_id == id ==> (
        after.tombstones[k].state is Granted <==> decision is Granted) && (
        after.tombstones[k].state is Denied <==> decision is Denied)
    &&& m.config.tombstone_limit > 0 ==> after.tombstones.len() > 0
        && after.tombstones.last().approval_id == id
}

proof fn lemma_completed_ends(
    m: BrokerModel,
    i: int,
    source: DecisionSource,
    decision: DecisionModel,
    now: Moment,
)
    requires
        m.well_formed(),
        0 <= i < m.pending.len(),
    ensures
        ends_with_decision(
            m,
            m.completed(i, state_for(decision), source, Some(decision), now),
            m.pending[i].approval_id,
            source,
            decision,
        ),
{
    let state = state_for(decision);
    let id = m.pending[i].approval_id;
    let gone = seq![m.pending[i]];
    let told = m.pending[i].completion(state, source, Some(decision), now);
    let grave = m.pending[i].tombstone(state, now);
    let after = m.completed(i, state, source, Some(decision), now);
    assert(gone.map_values(
        |entry: PendingModel| entry.completion(state, source, Some(decision), now),
    ) =~= seq![told]);
    assert(gone.map_values(|entry: PendingModel| entry.tombstone(state, now)) =~= seq![grave]);
    assert(after.completions =~= m.completions + seq![told]);
    assert(after.completions.drop_last() =~= m.completions);
    let before = BrokerModel {
        pending: m.pending.remove(i),
        replay: m.replay + gone.map_values(
            |entry: PendingModel| entry.reservation(m.config, now),
        ),
        tombstones: m.tombstones + seq![grave],
        completions: m.completions + seq![told],
        ..m
    };
    assert(after == before.pruned(now));
    the_newest_approvals_are_remembered(before, now);
    let n = before.tombstones.len() - after.tombstones.len();
    assert forall|k: int|
        0 <= k < after.tombstones.len() && (#[trigger] after.tombstones[k]).approval_id
            == id implies after.tombstones[k].state == state by {
        assert(after.tombstones[k] == before.tombstones[n + k]);
        if n + k < m.tombstones.len() {
            assert(m.pending[i].approval_id != m.tombstones[n + k].approval_id);
        }
    }
}

/// After a decision the completion and what is remembered say `Granted` exactly if the decision
/// grants and `Denied` exactly if it denies, and the decision is handed on as it was made.
pub proof fn states_tell_the_decision(
    m: BrokerModel,
    id: Seq<char>,
    decision: DecisionModel,
    now: Moment,
)
    requires
        m.well_formed(),
    ensures
        m.decided(id, decision, now) matches Ok(after) ==> ends_with_decision(
            m,
            after,
            id,
            DecisionSource::Control,
            decision,
        ),
        m.decided(id, decision, now) is Ok <==> exists|i: int|
            0 <= i < m.pending.len() && (#[trigger] m.pending[i]).approval_id == id,
        state_for(decision) is Granted <==> decision is Granted,
        state_for(decision) is Denied <==> decision is Denied,
{
    lemma_pending_position(m.pending, id);
    if let Some(i) = pending_position(m.pending, id) {
        lemma_completed_ends(m, i, DecisionSource::Control, decision, now);
    }
}

/// After a decision that is remembered the completion and what is kept say `Granted` exactly if the
/// rule allows and `Denied` exactly if it denies. The request is told the reason that was given, or
/// the usual one.
pub proof fn remembered_states_tell_the_action(
    m: BrokerModel,
    id: Seq<char>,
    action: RuleAction,
    scope: RuleScope,
    path: Option<Seq<char>>,
    reason: Option<Seq<char>>,
    now: Moment,
)
    requires
        m.well_formed(),
        m.remembered(id, action, scope, path, reason, now) is Ok,
    ensures
        ({
            let after = m.remembered(id, action, scope, path, reason, now)->Ok_0;
            let told = after.completions.last();
            &&& ends_with_decision(
                m,
                after,
                id,
                DecisionSource::ControlSessionRule,
                told.decision->0,
            )
            &&& told.decision->0 is Granted <==> action is Allow
            &&& told.decision->0 is Denied <==> action is Deny
            &&& action is Deny ==> told.decision == Some(
                DecisionModel::Denied {
                    reason: if reason is Some {
                        reason->0
                    } else {
                        "denied by local user"@
                    },
                },
            )
        }),
{
    lemma_pending_position(m.pending, id);
    let i = pending_position(m.pending, id)->0;
    let draft = draft_to_remember(m.pending[i].request, action, scope, path)->Ok_0;
    let ruled = BrokerModel { rules: inserted(m.rules, draft.compiled())->0, ..m };
    let decision = decision_for(action, reason);
    crate::policy::compiling_is_idempotent(draft);
    inserting_keeps_rules_in_order(m.rules, draft.compiled());
    lemma_completed_ends(ruled, i, DecisionSource::ControlSessionRule, decision, now);
    assert(ends_with_decision(
        m,
        m.remembered(id, action, scope, path, reason, now)->Ok_0,
        id,
        DecisionSource::ControlSessionRule,
        decision,
    ));
}

/// An approval that is not pending is told to be over exactly if it is remembered, and not to be
/// found otherwise.
pub proof fn missing_approvals_are_told_apart(m: BrokerModel, id: Seq<char>)
    ensures
        m.missing_error(id) is NotPending <==> exists|i: int|
            0 <= i < m.tombstones.len() && (#[trigger] m.tombstones[i]).approval_id == id,
        m.missing_error(id) is NotPending || m.missing_error(id) is NotFound,
        m.knows_id(id) <==> (exists|i: int|
            0 <= i < m.pending.len() && (#[trigger] m.pending[i]).approval_id == id) || (exists|
            i: int,
        |
            0 <= i < m.tombstones.len() && (#[trigger] m.tombstones[i]).approval_id == id),
{
    lemma_pending_position(m.pending, id);
    lemma_tombstone_position(m.tombstones, id);
}

/// Refreshing keeps exactly the requests whose lease is still running; for each of the others one
/// who waits is told that it expired and is denied.
pub proof fn leases_run_out_at_their_deadline(m: BrokerModel, entry: PendingModel, now: Moment)
    ensures
        m.refreshed(now).pending.contains(entry) <==> m.pending.contains(entry) && entry.deadline
            > now.monotonic,
        m.pending.contains(entry) && entry.deadline <= now.monotonic ==> exists|k: int|
            m.completions.len() <= k < m.refreshed(now).completions.len() && (
            #[trigger] m.refreshed(now).completions[k]).approval_id == entry.approval_id
                && m.refreshed(now).completions[k].state is Expired && m.refreshed(
                now,
            ).completions[k].source is Deadline && m.refreshed(now).completions[k].decision == Some(
                DecisionModel::Denied { reason: "approval request expired"@ },
            ),
        m.refreshed(now).rules == m.rules,
        m.refreshed(now).stopped == m.stopped,
{
    let alive = |entry: PendingModel| entry.deadline > now.monotonic;
    let over = |entry: PendingModel| entry.deadline <= now.monotonic;
    let kept = m.pending.filter(alive);
    let gone = m.pending.filter(over);
    let after = m.refreshed(now);
    if kept.contains(entry) {
        let k = choose|k: int| 0 <= k < kept.len() && kept[k] == entry;
        m.pending.lemma_filter_pred(alive, k);
        m.pending.lemma_filter_contains_rev(alive, entry);
    }
    if m.pending.contains(entry) {
        let i = choose|i: int| 0 <= i < m.pending.len() && m.pending[i] == entry;
        if entry.deadline > now.monotonic {
            m.pending.lemma_filter_contains(alive, i);
        } else {
            m.pending.lemma_filter_contains(over, i);
            let g = choose|g: int| 0 <= g < gone.len() && gone[g] == entry;
            let tell = |entry: PendingModel|
                entry.completion(
                    TerminalState::Expired,
                    DecisionSource::Deadline,
                    Some(DecisionModel::Denied { reason: EXPIRED_REASON@ }),
                    now,
                );
            assert(after.completions =~= m.completions + gone.map_values(tell));
            let k = m.completions.len() + g;
            assert(after.completions[k] == tell(entry));
        }
    }
}

/// A request is registered as it came, under its identifier, from now on and for the whole of its
/// lease on either clock.
pub proof fn requests_are_registered_as_they_came(
    m: BrokerModel,
    id: Seq<char>,
    incoming: IncomingModel,
    now: Moment,
)
    requires
        m.config.reaches(now),
    ensures
        ({
            let after = m.registered(id, incoming, now);
            &&& after.pending.len() == m.pending.len() + 1
            &&& exists|k: int|
                0 <= k < after.pending.len() && {
                    let entry = #[trigger] after.pending[k];
                    &&& after.pending.remove(k) == m.pending
                    &&& entry.approval_id == id
                    &&& entry.request == incoming.request
                    &&& entry.detail == incoming.detail
                    &&& entry.claimed_backend == incoming.claimed_backend
                    &&& entry.raw_request == incoming.raw_request
                    &&& entry.received_at == now.wall
                    &&& entry.deadline_wall == now.wall + m.config.request_timeout
                    &&& entry.deadline == now.monotonic + m.config.request_timeout
                }
            &&& after.replay == m.replay
            &&& after.tombstones == m.tombstones
            &&& after.rules == m.rules
            &&& after.completions == m.completions
            &&& after.stopped == m.stopped
        }),
{
    let entry = m.entry(id, incoming, now);
    let at = queue_position(m.pending, entry);
    let after = m.registered(id, incoming, now);
    lemma_queue_position(m.pending, entry);
    assert(after.pending[at] == entry);
    assert(after.pending.remove(at) =~= m.pending);
}

/// The queue is in the order of arrival; requests that arrived together are in the order of their
/// identifiers.
pub proof fn the_queue_is_in_order_of_arrival(m: BrokerModel, i: int, j: int)
    requires
        m.well_formed(),
        0 <= i < j < m.pending.len(),
    ensures
        m.pending[i].received_at <= m.pending[j].received_at,
        m.pending[i].received_at == m.pending[j].received_at ==> before(
            m.pending[i].approval_id,
            m.pending[j].approval_id,
        ),
        m.pending[i].approval_id != m.pending[j].approval_id,
{
    assert(m.pending[i].precedes(m.pending[j]));
}

/// What is shown of a pending request is its own: its identifier, its kind, its summary and
/// detail, when it came and when its lease ends.
pub proof fn pending_requests_are_shown_as_they_are(entry: PendingModel)
    ensures
        entry.summary().approval_id == entry.approval_id,
        entry.summary().capability_type == entry.request.capability_type(),
        entry.summary().summary == entry.detail.summary,
        entry.summary().received_at == timestamp_text(entry.received_at),
        entry.summary().deadline == timestamp_text(entry.deadline_wall),
        entry.shown().approval_id == entry.approval_id,
        entry.shown().received_at == timestamp_text(entry.received_at),
        entry.shown().deadline == timestamp_text(entry.deadline_wall),
        entry.shown().content == entry.detail,
        entry.shown().debug matches Some(debug) && debug.wire_request == entry.request
            && debug.claimed_backend == entry.claimed_backend && debug.source_kind
            == entry.request.source_kind(),
{
}

/// What is shown of a completed approval is how and when it ended.
pub proof fn completed_approvals_are_shown_as_they_ended(grave: TombstoneModel)
    ensures
        grave.shown().approval_id == grave.approval_id,
        grave.shown().state == grave.state,
        grave.shown().completed_at == timestamp_text(grave.completed_at),
{
}

/// A denial needs a reason with something but NULs in it, of at most 4096 bytes; a grant needs
/// nothing.
pub proof fn denials_need_a_reason(reason: Seq<char>)
    ensures
        reason_error(reason) is None <==> utf8_len(reason) <= 4096 && exists|i: int|
            0 <= i < reason.len() && #[trigger] reason[i] != '\0',
        reason_error(reason) == Some(BrokerErrorModel::EmptyDenialReason) <==> forall|i: int|
            0 <= i < reason.len() ==> #[trigger] reason[i] == '\0',
        reason_error(reason) == Some(BrokerErrorModel::DenialReasonTooLarge) <==> utf8_len(reason)
            > 4096 && exists|i: int| 0 <= i < reason.len() && #[trigger] reason[i] != '\0',
        decision_error(DecisionModel::Granted) is None,
        decision_error(DecisionModel::Denied { reason }) == reason_error(reason),
{
}

/// The rule to remember has the request's access and the action and scope asked for; its path is
/// the request's own unless another is given, and it applies to the request.
pub proof fn remembered_rules_are_as_asked(
    request: RequestModel,
    action: RuleAction,
    scope: RuleScope,
    path: Option<Seq<char>>,
)
    ensures
        draft_to_remember(request, action, scope, path) matches Ok(draft) ==> {
            &&& request is Capability
            &&& draft.action == action
            &&& draft.scope == scope
            &&& draft.access == request->Capability_access
            &&& draft.path == if path is Some {
                path->0
            } else {
                request->Capability_path
            }
            &&& draft.compiled().applies_to(request)
        },
{
}

/// An approval ID is `appr_` before sixteen lowercase hexadecimal digits, and nothing else is.
pub proof fn approval_ids_are_sixteen_digits(digits: Seq<char>, text: Seq<char>)
    ensures
        is_approval_id("appr_"@ + digits) <==> digits.len() == 16 && forall|i: int|
            0 <= i < 16 ==> '0' <= #[trigger] digits[i] <= '9' || 'a' <= digits[i] <= 'f',
        is_approval_id(text) ==> text == "appr_"@ + text.skip(5),
{
    reveal_strlit("appr_");
    let whole = "appr_"@ + digits;
    assert(whole.take(5) =~= "appr_"@);
    assert forall|i: int| 0 <= i < digits.len() implies #[trigger] whole[i + 5] == digits[i] by {}
    if is_approval_id(whole) {
        assert forall|i: int| 0 <= i < 16 implies '0' <= #[trigger] digits[i] <= '9' || 'a'
            <= digits[i] <= 'f' by {
            assert(is_hex(whole[i + 5]));
        }
    }
    if digits.len() == 16 && forall|i: int|
        0 <= i < 16 ==> '0' <= #[trigger] digits[i] <= '9' || 'a' <= digits[i] <= 'f' {
        assert forall|i: int| 5 <= i < 21 implies is_hex(#[trigger] whole[i]) by {
            assert(whole[i] == digits[i - 5]);
        }
    }
    if is_approval_id(text) {
        assert(text =~= text.take(5) + text.skip(5));
    }
}

/// The digits of bytes read back as the bytes, two by two, so different bytes have different
/// digits.
pub proof fn digits_of_bytes_read_back(bytes: Seq<u8>, i: int)
    requires
        0 <= i < bytes.len(),
    ensures
        hex_bytes(bytes).len() == 2 * bytes.len(),
        crate::text::number_of(hex_bytes(bytes).subrange(2 * i, 2 * i + 2), 16) == bytes[i],
    decreases bytes.len(),
{
    let front = bytes.drop_last();
    lemma_hex_bytes(bytes);
    lemma_hex_bytes(front);
    crate::text::hexadecimals_read_back(0, bytes[i]);
    if i == bytes.len() - 1 {
        assert(hex_bytes(bytes).subrange(2 * i, 2 * i + 2) =~= hex_byte(bytes[i]));
    } else {
        digits_of_bytes_read_back(front, i);
        assert(hex_bytes(bytes).subrange(2 * i, 2 * i + 2) =~= hex_bytes(front).subrange(
            2 * i,
            2 * i + 2,
        ));
    }
}

/// What the broker hands out is seen as what its fields hold.
pub proof fn records_are_seen_field_by_field(
    completion: Completion,
    summary: ApprovalSummary,
    detail: ApprovalDetail,
    debug: DebugDetail,
    completed: CompletedApproval,
)
    ensures
        completion@.approval_id == completion.approval_id@,
        completion@.state == completion.state,
        completion@.source == completion.source,
        completion@.decision is Some <==> completion.decision is Some,
        completion.decision matches Some(decision) ==> completion@.decision == Some(decision@),
        completion@.wait_duration == completion.wait_duration,
        summary@.approval_id == summary.approval_id@,
        summary@.capability_type == summary.capability_type@,
        summary@.summary == summary.summary@,
        summary@.received_at == summary.received_at@,
        summary@.deadline == summary.deadline@,
        detail@.approval_id == detail.approval_id@,
        detail@.received_at == detail.received_at@,
        detail@.deadline == detail.deadline@,
        detail@.content == detail.content@,
        detail@.debug is Some <==> detail.debug is Some,
        detail.debug matches Some(value) ==> detail@.debug == Some(value@),
        debug@.claimed_backend == debug.claimed_backend@,
        debug@.source_kind == debug.source_kind,
        debug@.wire_request == debug.wire_request@,
        completed@.approval_id == completed.approval_id@,
        completed@.state == completed.state,
        completed@.completed_at == completed.completed_at@,
        ShowApproval::Pending(detail)@ == ShowModel::Pending(detail@),
        ShowApproval::Completed(completed)@ == ShowModel::Completed(completed@),
{
}

/// Every refusal says what is wrong.
pub proof fn broker_refusals_say_what_is_wrong(detail: Seq<char>, error: PolicyErrorModel)
    ensures
        BrokerErrorModel::InvalidApprovalId.message()
            == "approval ID must be appr_ followed by 16 lowercase hexadecimal characters"@,
        BrokerErrorModel::DuplicateRequest.message()
            == "approval request is already active or was recently completed"@,
        BrokerErrorModel::PerSessionCapacity.message()
            == "per-session pending approval limit reached"@,
        BrokerErrorModel::GlobalCapacity.message() == "global pending approval limit reached"@,
        BrokerErrorModel::NotFound.message() == "approval not found"@,
        BrokerErrorModel::NotPending.message() == "approval is no longer pending"@,
        BrokerErrorModel::EmptyDenialReason.message() == "denial reason must not be empty"@,
        BrokerErrorModel::DenialReasonTooLarge.message() == "denial reason exceeds 4096 bytes"@,
        BrokerErrorModel::Random(detail).message() == "operating-system randomness failed: "@
            + detail,
        BrokerErrorModel::Policy(error).message() == error.message(),
{
}

/// The built-in limits and words.
pub proof fn the_built_in_limits_are_kept()
    ensures
        DEFAULT_REQUEST_TIMEOUT == 270 * 1000000000,
        DEFAULT_MAX_PENDING == 64,
        DEFAULT_MAX_PER_SESSION == 8,
        DEFAULT_TOMBSTONE_LIMIT == 1024,
        DEFAULT_TOMBSTONE_TTL == 10 * 60 * 1000000000,
        MAX_DENIAL_REASON_BYTES == 4096,
        DEFAULT_DENIAL_REASON@ == "denied by local user"@,
        EXPIRED_REASON@ == "approval request expired"@,
        SHUTDOWN_REASON@ == "approval daemon is shutting down"@,
        STOPPED_REASON@ == "approval daemon stopped"@,
        WIRE_ADAPTER_VERSION == 1,
{
}

/// A text is accepted as an approval ID exactly if it is one, and is then kept as it is.
pub proof fn only_whole_ids_are_accepted(value: &str, result: Result<ApprovalId, BrokerError>)
    requires
        call_ensures(ApprovalId::parse, (value,), result),
    ensures
        result is Ok <==> is_approval_id(value@),
        result matches Ok(id) ==> id@ == value@,
{
}

/// The identifier of bytes is `appr_` and their digits.
pub proof fn ids_of_bytes_hold_their_digits(bytes: [u8; 8], id: ApprovalId)
    requires
        call_ensures(ApprovalId::from_bytes, (bytes,), id),
    ensures
        id@ == "appr_"@ + hex_bytes(bytes@),
{
}

/// The rule that is told to match a request is the one that decides it, and none is after a
/// shutdown.
pub proof fn the_deciding_rule_is_told(
    broker: &Broker,
    request: &KnownApprovalRequest,
    result: Option<RuleDraft>,
)
    requires
        call_ensures(Broker::matching_rule, (broker, request), result),
    ensures
        result is Some <==> !broker@.stopped && exists|i: int|
            0 <= i < broker@.rules.len() && (#[trigger] broker@.rules[i]).applies_to(request@),
        result matches Some(draft) ==> exists|i: int|
            0 <= i < broker@.rules.len() && (#[trigger] broker@.rules[i]).applies_to(request@)
                && draft@ == broker@.rules[i].draft(),
{
    crate::policy::applicable_rules_are_heard(broker@.rules, request@);
    if let Some(rule) = deciding_rule(broker@.rules, request@) {
        let i = choose|i: int| 0 <= i < broker@.rules.len() && broker@.rules[i] == rule;
        assert(broker@.rules[i].applies_to(request@));
    }
}

/// The end of a request is told once, to whoever waits for it, as it was; its identifiers are
/// reserved, and everything else that waits goes on waiting.
pub proof fn ends_are_told_once(
    m: BrokerModel,
    i: int,
    state: TerminalState,
    source: DecisionSource,
    decision: Option<DecisionModel>,
    now: Moment,
)
    requires
        0 <= i < m.pending.len(),
    ensures
        ({
            let after = m.completed(i, state, source, decision, now);
            &&& after.completions.len() == m.completions.len() + 1
            &&& after.completions.drop_last() == m.completions
            &&& after.completions.last().approval_id == m.pending[i].approval_id
            &&& after.completions.last().state == state
            &&& after.completions.last().source == source
            &&& after.completions.last().decision == decision
            &&& after.pending == m.pending.remove(i)
            &&& after.rules == m.rules
            &&& after.stopped == m.stopped
        }),
{
    let told = m.pending[i].completion(state, source, decision, now);
    assert(seq![m.pending[i]].map_values(
        |entry: PendingModel| entry.completion(state, source, decision, now),
    ) =~= seq![told]);
    let after = m.completed(i, state, source, decision, now);
    assert(after.completions =~= m.completions.push(told));
    assert(after.completions.drop_last() =~= m.completions);
}

/// Lists are seen in their own order, one for one.
pub proof fn lists_are_seen_in_order(
    summaries: Seq<ApprovalSummary>,
    completions: Seq<Completion>,
)
    ensures
        summary_models(summaries).len() == summaries.len(),
        forall|i: int|
            0 <= i < summaries.len() ==> #[trigger] summary_models(summaries)[i] == summaries[i]@,
        completion_models(completions).len() == completions.len(),
        forall|i: int|
            0 <= i < completions.len() ==> #[trigger] completion_models(completions)[i]
                == completions[i]@,
{
}

/// A request whose lease ran out is reserved like any other that ended, and what is remembered of it
/// says that it expired.
pub proof fn expired_requests_are_remembered(m: BrokerModel, i: int, now: Moment, k: int)
    requires
        m.well_formed(),
        m.config.reaches(now),
        0 <= i < m.pending.len(),
        m.pending[i].deadline <= now.monotonic,
    ensures
        m.config.tombstone_ttl > 0 ==> m.refreshed(now).knows_key(
            m.pending[i].request.session_id(),
            m.pending[i].request.request_id(),
        ),
        0 <= k < m.refreshed(now).tombstones.len() && m.refreshed(now).tombstones[k].approval_id
            == m.pending[i].approval_id ==> m.refreshed(now).tombstones[k].state is Expired,
{
    let entry = m.pending[i];
    let over = |entry: PendingModel| entry.deadline <= now.monotonic;
    let alive = |entry: PendingModel| entry.deadline > now.monotonic;
    let gone = m.pending.filter(over);
    let reserve = |entry: PendingModel| entry.reservation(m.config, now);
    let bury = |entry: PendingModel| entry.tombstone(TerminalState::Expired, now);
    let tell = |entry: PendingModel|
        entry.completion(
            TerminalState::Expired,
            DecisionSource::Deadline,
            Some(DecisionModel::Denied { reason: EXPIRED_REASON@ }),
            now,
        );
    let before = BrokerModel {
        pending: m.pending.filter(alive),
        replay: m.replay + gone.map_values(reserve),
        tombstones: m.tombstones + gone.map_values(bury),
        completions: m.completions + gone.map_values(tell),
        ..m
    };
    assert(m.refreshed(now) == before.pruned(now));
    m.pending.lemma_filter_contains(over, i);
    let g = choose|g: int| 0 <= g < gone.len() && gone[g] == entry;
    let kept = entry.reservation(m.config, now);
    assert(before.replay[m.replay.len() + g] == kept);
    assert(before.replay.contains(kept));
    reservations_last_until_their_deadline(before, now, kept);
    let after = m.refreshed(now);
    if m.config.tombstone_ttl > 0 {
        let r = choose|r: int| 0 <= r < after.replay.len() && after.replay[r] == kept;
        assert(after.replay[r].session_id == entry.request.session_id());
    }
    the_newest_approvals_are_remembered(before, now);
    if 0 <= k < after.tombstones.len() && after.tombstones[k].approval_id == entry.approval_id {
        let at = before.tombstones.len() - after.tombstones.len() + k;
        assert(after.tombstones[k] == before.tombstones[at]);
        if at < m.tombstones.len() {
            assert(m.pending[i].approval_id != m.tombstones[at].approval_id);
        } else {
            assert(before.tombstones[at] == bury(gone[at - m.tombstones.len()]));
        }
    }
}

/// The end of one request keeps the reservations of others for their time.
pub proof fn reservations_outlast_other_ends(
    m: BrokerModel,
    i: int,
    state: TerminalState,
    source: DecisionSource,
    decision: Option<DecisionModel>,
    now: Moment,
    entry: ReplayModel,
)
    requires
        0 <= i < m.pending.len(),
        m.replay.contains(entry),
        entry.deadline > now.monotonic,
    ensures
        m.completed(i, state, source, decision, now).replay.contains(entry),
        m.completed(i, state, source, decision, now).config == m.config,
{
    let gone = seq![m.pending[i]];
    let before = BrokerModel {
        pending: m.pending.remove(i),
        replay: m.replay + gone.map_values(
            |entry: PendingModel| entry.reservation(m.config, now),
        ),
        tombstones: m.tombstones + gone.map_values(
            |entry: PendingModel| entry.tombstone(state, now),
        ),
        completions: m.completions + gone.map_values(
            |entry: PendingModel| entry.completion(state, source, decision, now),
        ),
        ..m
    };
    assert(m.completed(i, state, source, decision, now) == before.pruned(now));
    let k = choose|k: int| 0 <= k < m.replay.len() && m.replay[k] == entry;
    assert(before.replay[k] == entry);
    reservations_last_until_their_deadline(before, now, entry);
}

/// A request whose two identifiers no pending request carries in its fields and no reservation
/// holds is never refused as a duplicate, whatever else it shares with them; one that a pending
/// request or a reservation matches in both always is.
pub proof fn requests_that_differ_are_no_duplicates(
    m: BrokerModel,
    request: RequestModel,
    session: Seq<char>,
    id: Seq<char>,
)
    requires
        carries(request, session, id),
    ensures
        m.admission_error(request) == Some(BrokerErrorModel::DuplicateRequest) <==> (exists|i: int|
            0 <= i < m.pending.len() && carries((#[trigger] m.pending[i]).request, session, id)) || (
        exists|i: int|
            0 <= i < m.replay.len() && (#[trigger] m.replay[i]).session_id == session
                && m.replay[i].request_id == id),
{
    only_replays_are_duplicates(m, request);
    if exists|i: int|
        0 <= i < m.pending.len() && carries((#[trigger] m.pending[i]).request, session, id) {
        let i = choose|i: int|
            0 <= i < m.pending.len() && carries((#[trigger] m.pending[i]).request, session, id);
        assert(m.pending[i].request.session_id() == request.session_id());
    }
    if exists|i: int|
        0 <= i < m.pending.len() && (#[trigger] m.pending[i]).request.session_id()
            == request.session_id() && m.pending[i].request.request_id() == request.request_id() {
        let i = choose|i: int|
            0 <= i < m.pending.len() && (#[trigger] m.pending[i]).request.session_id()
                == request.session_id() && m.pending[i].request.request_id()
                == request.request_id();
        assert(carries(m.pending[i].request, session, id));
    }
}

} // verus!
