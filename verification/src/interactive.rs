//! The interactive client: its state, what every key does, and what the daemon's answers change.
use vstd::prelude::*;

use crate::broker::{
    reason_error, summary_models, validate_denial_reason, ApprovalDetail, ApprovalDetailModel,
    ApprovalId, ApprovalSummary, SummaryModel, TerminalState, DEFAULT_DENIAL_REASON,
    MAX_DENIAL_REASON_BYTES,
};
use crate::control::{
    ApprovalView, ControlClient, ControlClientError, DaemonStatus,
    DebugCaptureStatus, DecisionRequest, DecisionResponse, SessionRuleRequest, StatusModel,
};
use crate::debug_capture::CaptureStatusModel;
use crate::keys::{KeyCode, KeyEvent, KeyEventKind};
use crate::policy::{
    ancestors_of, draft_from, DraftModel, PolicyErrorModel, RuleAction, RuleDraft, RuleScope,
};
use crate::protocol::{DecisionModel, KnownApprovalRequest, RequestModel};
use crate::rule_selector::{RuleSelector, SelectorEvent, SelectorEventModel, SelectorModel};
use crate::text::{
    byte_len, chars, decimal, decimal_text, same, text, text_option, utf8_len, with_detail,
};

verus! {

/// How long the client waits between polls while it is connected, in nanoseconds.
pub const CONNECTED_POLL: u128 = 500000000;

/// How long the client waits between polls while it is not connected, in nanoseconds.
pub const DISCONNECTED_POLL: u128 = 1000000000;

/// How long the outcome of an action stays in the status line, in nanoseconds.
pub const STATUS_TIME: u128 = 4000000000;

/// What the status line says while there is no daemon.
pub const DISCONNECTED_STATUS: &'static str = "Disconnected — waiting for daemon…";

/// What the status line says while nothing is pending.
pub const WAITING_STATUS: &'static str = "Waiting for approval requests…";

/// What the status line says while something is pending.
pub const PENDING_STATUS: &'static str = "a approve · d deny · D reason · r rule · q quit";

/// Why a rule cannot be submitted once its request is gone.
pub const SOURCE_GONE: &'static str = "Source request is no longer pending";

/// Why the client ended.
#[derive(Debug, PartialEq, Eq)]
pub enum InteractiveError {
    Io(String),
}

impl InteractiveError {
    /// The error as people read it.
    pub fn message(&self) -> (result: String)
        ensures
            result@ == self->Io_0@,
    {
        match self {
            InteractiveError::Io(detail) => detail.clone(),
        }
    }
}

// ---------------------------------------------------------------------------
// Words
// ---------------------------------------------------------------------------

impl TerminalState {
    /// The word for the state.
    pub open spec fn word(self) -> Seq<char> {
        match self {
            TerminalState::Granted => "Granted"@,
            TerminalState::Denied => "Denied"@,
            TerminalState::Expired => "Expired"@,
            TerminalState::Cancelled => "Cancelled"@,
        }
    }

    /// The word for the state.
    pub fn as_word(&self) -> (result: &'static str)
        ensures
            result@ == self.word(),
    {
        match self {
            TerminalState::Granted => "Granted",
            TerminalState::Denied => "Denied",
            TerminalState::Expired => "Expired",
            TerminalState::Cancelled => "Cancelled",
        }
    }
}

impl RuleAction {
    /// The word for the action.
    pub open spec fn word(self) -> Seq<char> {
        match self {
            RuleAction::Allow => "Allow"@,
            RuleAction::Deny => "Deny"@,
        }
    }

    /// The word for the action.
    pub fn as_word(&self) -> (result: &'static str)
        ensures
            result@ == self.word(),
    {
        match self {
            RuleAction::Allow => "Allow",
            RuleAction::Deny => "Deny",
        }
    }
}

/// A time some nanoseconds later, or the end of time.
pub open spec fn later(now: u128, delay: u128) -> u128 {
    if now + delay > u128::MAX {
        u128::MAX
    } else {
        (now + delay) as u128
    }
}

/// Counts on from a time.
fn after(now: u128, delay: u128) -> (result: u128)
    ensures
        result == later(now, delay),
{
    if now > u128::MAX - delay {
        u128::MAX
    } else {
        now + delay
    }
}

/// A text without its last character.
pub open spec fn shortened(value: Seq<char>) -> Seq<char> {
    if value.len() == 0 {
        value
    } else {
        value.drop_last()
    }
}

/// Removes the last character of a text.
fn shorten(value: &str) -> (result: String)
    ensures
        result@ == shortened(value@),
{
    let all = chars(value);
    if all.len() == 0 {
        return value.to_owned();
    }
    let kept = vstd::slice::slice_subrange(all.as_slice(), 0, all.len() - 1);
    assert(kept@ =~= value@.drop_last());
    text(kept)
}

// ---------------------------------------------------------------------------
// State
// ---------------------------------------------------------------------------

/// A denial reason that is being typed, for one fixed approval.
#[derive(Debug)]
pub struct ReasonInput {
    pub approval_id: ApprovalId,
    pub value: String,
    pub error: Option<String>,
}

/// The contents of a [`ReasonInput`].
pub struct ReasonModel {
    pub approval_id: Seq<char>,
    pub value: Seq<char>,
    pub error: Option<Seq<char>>,
}

impl View for ReasonInput {
    type V = ReasonModel;

    open spec fn view(&self) -> ReasonModel {
        ReasonModel {
            approval_id: self.approval_id@,
            value: self.value@,
            error: text_option(self.error),
        }
    }
}

/// A file name that is being typed.
#[derive(Debug)]
pub struct SaveInput {
    pub value: String,
    pub error: Option<String>,
}

/// The contents of a [`SaveInput`].
pub struct SaveModel {
    pub value: Seq<char>,
    pub error: Option<Seq<char>>,
}

impl View for SaveInput {
    type V = SaveModel;

    open spec fn view(&self) -> SaveModel {
        SaveModel { value: self.value@, error: text_option(self.error) }
    }
}

/// A rule that is being chosen, for one fixed approval.
#[derive(Debug)]
pub struct ApprovalRuleEditing {
    pub approval_id: ApprovalId,
    pub request: KnownApprovalRequest,
    pub deadline: String,
    pub available: bool,
    pub source_scroll: u16,
    pub editor: RuleSelector,
    pub error: Option<String>,
    pub too_small: bool,
}

/// The contents of an [`ApprovalRuleEditing`].
pub struct EditingModel {
    pub approval_id: Seq<char>,
    pub request: RequestModel,
    pub deadline: Seq<char>,
    pub available: bool,
    pub source_scroll: u16,
    pub editor: SelectorModel,
    pub error: Option<Seq<char>>,
    pub too_small: bool,
}

impl View for ApprovalRuleEditing {
    type V = EditingModel;

    open spec fn view(&self) -> EditingModel {
        EditingModel {
            approval_id: self.approval_id@,
            request: self.request@,
            deadline: self.deadline@,
            available: self.available,
            source_scroll: self.source_scroll,
            editor: self.editor@,
            error: text_option(self.error),
            too_small: self.too_small,
        }
    }
}

impl EditingModel {
    /// What keeps the rule from being submitted, if anything does: the request is gone, the rule does
    /// not cover it, or the last attempt failed.
    pub open spec fn blocked(self) -> Option<Seq<char>> {
        if !self.available {
            Some(SOURCE_GONE@)
        } else {
            match self.editor.draft.source_error(self.request) {
                Some(error) => Some(error.message()),
                None => self.error,
            }
        }
    }
}

impl ApprovalRuleEditing {
    /// What keeps the rule from being submitted, if anything does.
    pub fn blocked(&self) -> (result: Option<String>)
        ensures
            text_option(result) == self@.blocked(),
    {
        if !self.available {
            return Some(SOURCE_GONE.to_owned());
        }
        match self.editor.draft().validate_source(&self.request) {
            Err(error) => Some(error.message()),
            Ok(()) => match &self.error {
                Some(error) => Some(error.clone()),
                None => None,
            },
        }
    }
}

/// Whether the client asks to confirm that all rules are cleared, and whether the question can be
/// read.
#[derive(Clone, Copy, Debug, PartialEq, Eq, Structural)]
pub enum ClearConfirmation {
    Closed,
    Hidden,
    Visible,
}

/// The state of the client. Times are nanoseconds on a clock that never goes back.
#[derive(Debug)]
pub struct App {
    pub client: ControlClient,
    pub connected: bool,
    pub approvals: Vec<ApprovalSummary>,
    pub selected: Option<usize>,
    pub detail: Option<ApprovalDetail>,
    pub detail_scroll: u16,
    pub show_detail_panel: bool,
    pub reason: Option<ReasonInput>,
    pub save: Option<SaveInput>,
    pub editing: Option<ApprovalRuleEditing>,
    pub clear_confirmation: ClearConfirmation,
    pub status: String,
    pub debug_capture: DebugCaptureStatus,
    pub session_rule_count: usize,
    pub status_until: u128,
    pub next_poll: u128,
}

/// The contents of an [`App`].
pub struct AppModel {
    pub client: Seq<char>,
    pub connected: bool,
    pub approvals: Seq<SummaryModel>,
    pub selected: Option<usize>,
    pub detail: Option<ApprovalDetailModel>,
    pub detail_scroll: u16,
    pub show_detail_panel: bool,
    pub reason: Option<ReasonModel>,
    pub save: Option<SaveModel>,
    pub editing: Option<EditingModel>,
    pub clear_confirmation: ClearConfirmation,
    pub status: Seq<char>,
    pub debug_capture: CaptureStatusModel,
    pub session_rule_count: usize,
    pub status_until: u128,
    pub next_poll: u128,
}

impl View for App {
    type V = AppModel;

    open spec fn view(&self) -> AppModel {
        AppModel {
            client: self.client@,
            connected: self.connected,
            approvals: summary_models(self.approvals@),
            selected: self.selected,
            detail: match self.detail {
                Some(detail) => Some(detail@),
                None => None,
            },
            detail_scroll: self.detail_scroll,
            show_detail_panel: self.show_detail_panel,
            reason: match self.reason {
                Some(reason) => Some(reason@),
                None => None,
            },
            save: match self.save {
                Some(save) => Some(save@),
                None => None,
            },
            editing: match self.editing {
                Some(editing) => Some(editing@),
                None => None,
            },
            clear_confirmation: self.clear_confirmation,
            status: self.status@,
            debug_capture: self.debug_capture@,
            session_rule_count: self.session_rule_count,
            status_until: self.status_until,
            next_poll: self.next_poll,
        }
    }
}

/// The position of an approval in the queue, if it is there.
pub open spec fn id_position(approvals: Seq<SummaryModel>, id: Seq<char>) -> Option<usize>
    decreases approvals.len(),
{
    if approvals.len() == 0 {
        None
    } else if approvals[0].approval_id == id {
        Some(0)
    } else {
        match id_position(approvals.drop_first(), id) {
            Some(i) => Some((i + 1) as usize),
            None => None,
        }
    }
}

impl AppModel {
    /// A rule that is being chosen is one of the choices.
    pub open spec fn well_formed(self) -> bool {
        self.editing matches Some(editing) ==> editing.editor.well_formed()
    }

    /// The approval that is selected.
    pub open spec fn selected_id(self) -> Option<Seq<char>> {
        match self.selected {
            Some(i) => if i < self.approvals.len() {
                Some(self.approvals[i as int].approval_id)
            } else {
                None
            },
            None => None,
        }
    }

    /// The state once the daemon is gone: nothing that it told is kept.
    pub open spec fn disconnected(self, now: u128) -> AppModel {
        AppModel {
            connected: false,
            approvals: Seq::empty(),
            selected: None,
            detail: None,
            detail_scroll: 0,
            reason: None,
            editing: None,
            clear_confirmation: ClearConfirmation::Closed,
            session_rule_count: 0,
            status: if now >= self.status_until {
                DISCONNECTED_STATUS@
            } else {
                self.status
            },
            next_poll: later(now, DISCONNECTED_POLL),
            ..self
        }
    }

    /// The selection in a new queue. A rule that is being chosen keeps to its own approval. Otherwise
    /// the selected approval stays selected; if it is gone, what is at its place is selected, or the
    /// last; and without a selection the first is selected.
    pub open spec fn selection_in(self, approvals: Seq<SummaryModel>) -> Option<usize> {
        match self.editing {
            Some(editing) => id_position(approvals, editing.approval_id),
            None => if approvals.len() == 0 {
                None
            } else {
                match self.selected_id() {
                    Some(id) => match id_position(approvals, id) {
                        Some(i) => Some(i),
                        None => if self.selected->0 < approvals.len() {
                            self.selected
                        } else {
                            Some((approvals.len() - 1) as usize)
                        },
                    },
                    None => Some(0),
                }
            },
        }
    }

    /// The state with a new queue.
    pub open spec fn listed(self, approvals: Seq<SummaryModel>) -> AppModel {
        AppModel {
            connected: true,
            approvals,
            selected: self.selection_in(approvals),
            editing: match self.editing {
                Some(editing) => Some(
                    EditingModel {
                        available: editing.available && id_position(
                            approvals,
                            editing.approval_id,
                        ) is Some,
                        ..editing
                    },
                ),
                None => None,
            },
            ..self
        }
    }

    /// The state at the end of a poll.
    pub open spec fn settled(self, now: u128) -> AppModel {
        AppModel {
            status: if now < self.status_until {
                self.status
            } else if self.approvals.len() == 0 {
                WAITING_STATUS@
            } else {
                PENDING_STATUS@
            },
            next_poll: later(now, CONNECTED_POLL),
            ..self
        }
    }

    /// The state with what the daemon tells about itself.
    pub open spec fn informed(self, status: StatusModel) -> AppModel {
        AppModel {
            debug_capture: status.debug_capture,
            session_rule_count: status.session_rule_count as usize,
            ..self
        }
    }

    /// The state with a new status line, which stays for a while.
    pub open spec fn noted(self, status: Seq<char>, now: u128) -> AppModel {
        AppModel { status, status_until: later(now, STATUS_TIME), ..self }
    }
}

// ---------------------------------------------------------------------------
// Polling
// ---------------------------------------------------------------------------

/// What the daemon answered when it was asked for the selected approval.
#[derive(Debug)]
pub enum DetailReply {
    Shown(ApprovalView),
    NotFound,
    Failed,
}

/// What happened during a poll.
#[derive(Debug)]
pub enum RefreshEvent {
    Due,
    Listed(Option<Vec<ApprovalSummary>>),
    Informed(Option<DaemonStatus>),
    Shown(DetailReply),
}

/// What a poll has to ask for next.
#[derive(Debug)]
pub enum RefreshNeed {
    List,
    Status,
    Detail(ApprovalId),
    Done,
}

/// The contents of a [`RefreshNeed`].
pub enum NeedModel {
    List,
    Status,
    Detail(Seq<char>),
    Done,
}

impl View for RefreshNeed {
    type V = NeedModel;

    open spec fn view(&self) -> NeedModel {
        match *self {
            RefreshNeed::List => NeedModel::List,
            RefreshNeed::Status => NeedModel::Status,
            RefreshNeed::Detail(id) => NeedModel::Detail(id@),
            RefreshNeed::Done => NeedModel::Done,
        }
    }
}

/// The detail that an answer gives: none for an approval that is completed or gone.
pub open spec fn detail_in(view: ApprovalView) -> Option<ApprovalDetailModel> {
    match view {
        ApprovalView::Pending(detail) => Some(detail@),
        ApprovalView::Completed(_) => None,
    }
}

impl AppModel {
    /// One step of a poll: the queue, then the daemon's status, then the selected approval unless a
    /// rule is being chosen. Any failure disconnects.
    pub open spec fn refreshed(self, event: RefreshEvent, now: u128) -> (AppModel, NeedModel) {
        match event {
            RefreshEvent::Due => (self, NeedModel::List),
            RefreshEvent::Listed(None) => (self.disconnected(now), NeedModel::Done),
            RefreshEvent::Listed(Some(approvals)) => (
                self.listed(summary_models(approvals@)),
                NeedModel::Status,
            ),
            RefreshEvent::Informed(None) => (self.disconnected(now), NeedModel::Done),
            RefreshEvent::Informed(Some(status)) => if self.editing is Some {
                (self.informed(status@).settled(now), NeedModel::Done)
            } else {
                match self.selected_id() {
                    Some(id) => (self.informed(status@), NeedModel::Detail(id)),
                    None => (
                        (AppModel { detail: None, ..self.informed(status@) }).settled(now),
                        NeedModel::Done,
                    ),
                }
            },
            RefreshEvent::Shown(DetailReply::Failed) => (self.disconnected(now), NeedModel::Done),
            RefreshEvent::Shown(DetailReply::NotFound) => (
                (AppModel { detail: None, ..self }).settled(now),
                NeedModel::Done,
            ),
            RefreshEvent::Shown(DetailReply::Shown(view)) => (
                (AppModel { detail: detail_in(view), ..self }).settled(now),
                NeedModel::Done,
            ),
        }
    }
}

proof fn lemma_id_position(approvals: Seq<SummaryModel>, id: Seq<char>)
    requires
        approvals.len() <= usize::MAX,
    ensures
        match id_position(approvals, id) {
            Some(i) => i < approvals.len() && approvals[i as int].approval_id == id && forall|j: int|
                0 <= j < i ==> (#[trigger] approvals[j]).approval_id != id,
            None => forall|j: int|
                0 <= j < approvals.len() ==> (#[trigger] approvals[j]).approval_id != id,
        },
    decreases approvals.len(),
{
    if approvals.len() > 0 && approvals[0].approval_id != id {
        let rest = approvals.drop_first();
        lemma_id_position(rest, id);
        assert forall|j: int| 0 <= j < approvals.len() implies j == 0 || (
        #[trigger] approvals[j]) == rest[j - 1] by {}
    }
}

/// Finds an approval in the queue.
fn position(approvals: &Vec<ApprovalSummary>, id: &ApprovalId) -> (result: Option<usize>)
    ensures
        result == id_position(summary_models(approvals@), id@),
{
    let ghost all = summary_models(approvals@);
    proof {
        lemma_id_position(all, id@);
    }
    for i in 0..approvals.len()
        invariant
            all == summary_models(approvals@),
            forall|j: int| 0 <= j < i ==> (#[trigger] all[j]).approval_id != id@,
            match id_position(all, id@) {
                Some(i) => i < all.len() && all[i as int].approval_id == id@ && forall|j: int|
                    0 <= j < i ==> (#[trigger] all[j]).approval_id != id@,
                None => forall|j: int| 0 <= j < all.len() ==> (#[trigger] all[j]).approval_id != id@,
            },
    {
        assert(all[i as int] == approvals@[i as int]@);
        if same(approvals[i].approval_id.as_str(), id.as_str()) {
            return Some(i);
        }
    }
    None
}

impl App {
    /// A client that has not connected yet.
    pub fn new(socket_path: &str, now: u128) -> (result: Self)
        ensures
            result@ == (AppModel {
                client: socket_path@,
                connected: false,
                approvals: Seq::empty(),
                selected: None,
                detail: None,
                detail_scroll: 0,
                show_detail_panel: false,
                reason: None,
                save: None,
                editing: None,
                clear_confirmation: ClearConfirmation::Closed,
                status: DISCONNECTED_STATUS@,
                debug_capture: CaptureStatusModel::Disabled,
                session_rule_count: 0,
                status_until: now,
                next_poll: now,
            }),
            result@.well_formed(),
    {
        let app = App {
            client: ControlClient::new(socket_path),
            connected: false,
            approvals: Vec::new(),
            selected: None,
            detail: None,
            detail_scroll: 0,
            show_detail_panel: false,
            reason: None,
            save: None,
            editing: None,
            clear_confirmation: ClearConfirmation::Closed,
            status: DISCONNECTED_STATUS.to_owned(),
            debug_capture: DebugCaptureStatus::Disabled,
            session_rule_count: 0,
            status_until: now,
            next_poll: now,
        };
        assert(app@.approvals =~= Seq::empty());
        app
    }

    /// The approval that is selected.
    pub fn selected_id(&self) -> (result: Option<ApprovalId>)
        ensures
            match self@.selected_id() {
                Some(id) => result matches Some(found) && found@ == id,
                None => result is None,
            },
    {
        match self.selected {
            Some(i) => {
                if i < self.approvals.len() {
                    assert(self@.approvals[i as int] == self.approvals@[i as int]@);
                    Some(self.approvals[i].approval_id.clone())
                } else {
                    None
                }
            },
            None => None,
        }
    }

    /// Forgets everything that the daemon told.
    pub fn disconnect(&mut self, now: u128)
        ensures
            final(self)@ == old(self)@.disconnected(now),
            final(self)@.well_formed(),
    {
        self.connected = false;
        self.approvals = Vec::new();
        self.selected = None;
        self.detail = None;
        self.detail_scroll = 0;
        self.reason = None;
        self.editing = None;
        self.clear_confirmation = ClearConfirmation::Closed;
        self.session_rule_count = 0;
        if now >= self.status_until {
            self.status = DISCONNECTED_STATUS.to_owned();
        }
        self.next_poll = after(now, DISCONNECTED_POLL);
        assert(self@.approvals =~= Seq::empty());
    }

    /// Takes over a new queue.
    fn take_list(&mut self, approvals: Vec<ApprovalSummary>)
        requires
            old(self)@.well_formed(),
        ensures
            final(self)@ == old(self)@.listed(summary_models(approvals@)),
            final(self)@.well_formed(),
    {
        let old_id = self.selected_id();
        let old_index: usize = match self.selected {
            Some(i) => i,
            None => 0,
        };
        let mut editing: Option<ApprovalRuleEditing> = None;
        std::mem::swap(&mut editing, &mut self.editing);
        let selected = match &editing {
            Some(editing) => position(&approvals, &editing.approval_id),
            None => {
                if approvals.len() == 0 {
                    None
                } else {
                    match &old_id {
                        Some(id) => match position(&approvals, id) {
                            Some(i) => Some(i),
                            None => {
                                if old_index < approvals.len() {
                                    Some(old_index)
                                } else {
                                    Some(approvals.len() - 1)
                                }
                            },
                        },
                        None => Some(0),
                    }
                }
            },
        };
        if let Some(mut open) = editing {
            open.available = open.available && selected.is_some();
            self.editing = Some(open);
        }
        self.connected = true;
        self.approvals = approvals;
        self.selected = selected;
    }

    /// Ends a poll.
    fn settle(&mut self, now: u128)
        requires
            old(self)@.well_formed(),
        ensures
            final(self)@ == old(self)@.settled(now),
            final(self)@.well_formed(),
    {
        if now >= self.status_until {
            self.status = if self.approvals.len() == 0 {
                WAITING_STATUS.to_owned()
            } else {
                PENDING_STATUS.to_owned()
            };
        }
        self.next_poll = after(now, CONNECTED_POLL);
    }

    /// Takes one step of a poll and tells what to ask for next.
    pub fn refresh(&mut self, event: RefreshEvent, now: u128) -> (result: RefreshNeed)
        requires
            old(self)@.well_formed(),
        ensures
            (final(self)@, result@) == old(self)@.refreshed(event, now),
            final(self)@.well_formed(),
    {
        match event {
            RefreshEvent::Due => RefreshNeed::List,
            RefreshEvent::Listed(None) => {
                self.disconnect(now);
                RefreshNeed::Done
            },
            RefreshEvent::Listed(Some(approvals)) => {
                self.take_list(approvals);
                RefreshNeed::Status
            },
            RefreshEvent::Informed(None) => {
                self.disconnect(now);
                RefreshNeed::Done
            },
            RefreshEvent::Informed(Some(status)) => {
                self.debug_capture = status.debug_capture;
                self.session_rule_count = status.session_rule_count;
                if self.editing.is_some() {
                    self.settle(now);
                    return RefreshNeed::Done;
                }
                match self.selected_id() {
                    Some(id) => RefreshNeed::Detail(id),
                    None => {
                        self.detail = None;
                        self.settle(now);
                        RefreshNeed::Done
                    },
                }
            },
            RefreshEvent::Shown(DetailReply::Failed) => {
                self.disconnect(now);
                RefreshNeed::Done
            },
            RefreshEvent::Shown(DetailReply::NotFound) => {
                self.detail = None;
                self.settle(now);
                RefreshNeed::Done
            },
            RefreshEvent::Shown(DetailReply::Shown(view)) => {
                self.detail = match view {
                    ApprovalView::Pending(detail) => Some(detail),
                    ApprovalView::Completed(_) => None,
                };
                self.settle(now);
                RefreshNeed::Done
            },
        }
    }
}

// ---------------------------------------------------------------------------
// Outcomes of actions
// ---------------------------------------------------------------------------

/// What the status line says of a decision.
pub open spec fn decision_status(outcome: Result<DecisionResponse, ControlClientError>) -> Seq<char> {
    match outcome {
        Ok(response) => response.approval_id@ + (": "@ + response.state.word()),
        Err(error) => "Decision failed: "@ + error@.message(),
    }
}

/// What the status line says once the rules were to be cleared.
pub open spec fn cleared_status(outcome: Result<usize, ControlClientError>) -> Seq<char> {
    match outcome {
        Ok(count) => "Cleared "@ + (decimal(count as nat) + " session rule(s)."@),
        Err(error) => "Clear session rules failed: "@ + error@.message(),
    }
}

/// What the status line says once the rules were to be saved.
pub open spec fn saved_status(outcome: Result<String, String>) -> Seq<char> {
    match outcome {
        Ok(path) => "Saved session rules to "@ + path@,
        Err(error) => "Save rules failed: "@ + error@,
    }
}

/// The selector for a rule about a request, at the request's own path, or why there is none.
pub open spec fn selector_for(request: RequestModel, action: RuleAction, scope: RuleScope) -> Result<
    SelectorModel,
    PolicyErrorModel,
> {
    match draft_from(request, action, scope) {
        Ok(draft) => Ok(
            SelectorModel {
                draft: draft.normalized(),
                paths: ancestors_of(draft.path),
                selected: 0,
                source_scope: draft.scope,
                scroll: 0,
            },
        ),
        Err(error) => Err(error),
    }
}

impl AppModel {
    /// The state after a decision was sent.
    pub open spec fn decided(
        self,
        outcome: Result<DecisionResponse, ControlClientError>,
        now: u128,
    ) -> AppModel {
        AppModel { next_poll: now, ..self.noted(decision_status(outcome), now) }
    }

    /// The state after the rules were to be cleared.
    pub open spec fn cleared(
        self,
        outcome: Result<usize, ControlClientError>,
        now: u128,
    ) -> AppModel {
        AppModel {
            clear_confirmation: ClearConfirmation::Closed,
            session_rule_count: if outcome is Ok {
                0
            } else {
                self.session_rule_count
            },
            next_poll: now,
            ..self.noted(cleared_status(outcome), now)
        }
    }

    /// The state after the rules were to be saved.
    pub open spec fn saved(self, outcome: Result<String, String>, now: u128) -> AppModel {
        self.noted(saved_status(outcome), now)
    }

    /// The state once the daemon told of the request that a rule is to be about.
    pub open spec fn opened(
        self,
        id: Seq<char>,
        action: RuleAction,
        scope: RuleScope,
        outcome: Result<ApprovalView, ControlClientError>,
        now: u128,
    ) -> AppModel {
        let after = AppModel { next_poll: now, ..self };
        match outcome {
            Err(error) => after.noted("Rule draft failed: "@ + error@.message(), now),
            Ok(ApprovalView::Completed(_)) => after.noted(SOURCE_GONE@, now),
            Ok(ApprovalView::Pending(detail)) => match detail@.debug {
                None => after.noted("Rule draft failed: source path is unavailable"@, now),
                Some(debug) => match selector_for(debug.wire_request, action, scope) {
                    Err(error) => after.noted("Rule draft failed: "@ + error.message(), now),
                    Ok(editor) => AppModel {
                        editing: Some(
                            EditingModel {
                                approval_id: id,
                                request: debug.wire_request,
                                deadline: detail@.deadline,
                                available: true,
                                source_scroll: 0,
                                editor,
                                error: None,
                                too_small: false,
                            },
                        ),
                        ..after
                    },
                },
            },
        }
    }

    /// The state after a decision to remember was sent.
    pub open spec fn remembered(
        self,
        draft: DraftModel,
        outcome: Result<DecisionResponse, ControlClientError>,
        now: u128,
    ) -> AppModel {
        match self.editing {
            None => self,
            Some(editing) => {
                let after = AppModel {
                    next_poll: now,
                    status_until: later(now, STATUS_TIME),
                    ..self
                };
                match outcome {
                    Ok(_) => AppModel {
                        status: editing.approval_id + (": "@ + (draft.action.word() + (" "@ + (
                        draft.scope.name() + " rule remembered"@)))),
                        editing: None,
                        ..after
                    },
                    Err(error) => AppModel {
                        editing: Some(
                            EditingModel {
                                error: Some("Session rule failed: "@ + error@.message()),
                                ..editing
                            },
                        ),
                        ..after
                    },
                }
            },
        }
    }
}

/// The body of a decision to remember.
pub fn session_rule_request(draft: &RuleDraft) -> (result: SessionRuleRequest)
    ensures
        result.action == draft.action,
        result.scope == draft.scope,
        result.reason is None,
        result.path matches Some(path) && path@ == draft.path@,
{
    SessionRuleRequest {
        action: draft.action,
        scope: draft.scope,
        reason: None,
        path: Some(draft.path.clone()),
    }
}

impl App {
    /// Shows a status line for a while.
    fn note(&mut self, status: String, now: u128)
        requires
            old(self)@.well_formed(),
        ensures
            final(self)@ == old(self)@.noted(status@, now),
            final(self)@.well_formed(),
    {
        self.status = status;
        self.status_until = after(now, STATUS_TIME);
    }

    /// Takes note of what became of a decision.
    pub fn decide(&mut self, outcome: Result<DecisionResponse, ControlClientError>, now: u128)
        requires
            old(self)@.well_formed(),
        ensures
            final(self)@ == old(self)@.decided(outcome, now),
            final(self)@.well_formed(),
    {
        let status = match outcome {
            Ok(response) => {
                let rest = with_detail(": ", response.state.as_word());
                with_detail(response.approval_id.as_str(), rest.as_str())
            },
            Err(error) => with_detail("Decision failed: ", error.message().as_str()),
        };
        self.note(status, now);
        self.next_poll = now;
    }

    /// Takes note of whether the rules were cleared.
    pub fn clear_session_rules(&mut self, outcome: Result<usize, ControlClientError>, now: u128)
        requires
            old(self)@.well_formed(),
        ensures
            final(self)@ == old(self)@.cleared(outcome, now),
            final(self)@.well_formed(),
    {
        self.clear_confirmation = ClearConfirmation::Closed;
        let status = match outcome {
            Ok(count) => {
                self.session_rule_count = 0;
                let rest = with_detail(decimal_text(count as u64).as_str(), " session rule(s).");
                with_detail("Cleared ", rest.as_str())
            },
            Err(error) => with_detail("Clear session rules failed: ", error.message().as_str()),
        };
        self.note(status, now);
        self.next_poll = now;
    }

    /// Takes note of whether the rules were saved.
    pub fn save_session_rules(&mut self, outcome: Result<String, String>, now: u128)
        requires
            old(self)@.well_formed(),
        ensures
            final(self)@ == old(self)@.saved(outcome, now),
            final(self)@.well_formed(),
    {
        let status = match outcome {
            Ok(path) => with_detail("Saved session rules to ", path.as_str()),
            Err(error) => with_detail("Save rules failed: ", error.as_str()),
        };
        self.note(status, now);
    }

    /// Opens the rule selector for a request, or notes why it cannot be opened.
    pub fn open_rule_editor(
        &mut self,
        approval_id: ApprovalId,
        action: RuleAction,
        scope: RuleScope,
        outcome: Result<ApprovalView, ControlClientError>,
        now: u128,
    )
        requires
            old(self)@.well_formed(),
        ensures
            final(self)@ == old(self)@.opened(approval_id@, action, scope, outcome, now),
            final(self)@.well_formed(),
    {
        self.next_poll = now;
        let status = match outcome {
            Err(error) => with_detail("Rule draft failed: ", error.message().as_str()),
            Ok(ApprovalView::Completed(_)) => SOURCE_GONE.to_owned(),
            Ok(ApprovalView::Pending(detail)) => {
                match detail.debug {
                    None => "Rule draft failed: source path is unavailable".to_owned(),
                    Some(debug) => {
                        let selector = match RuleDraft::from_request(
                            &debug.wire_request,
                            action,
                            scope,
                        ) {
                            Ok(draft) => RuleSelector::new(draft),
                            Err(error) => Err(error),
                        };
                        match selector {
                            Ok(editor) => {
                                self.editing = Some(
                                    ApprovalRuleEditing {
                                        approval_id,
                                        request: debug.wire_request,
                                        deadline: detail.deadline,
                                        available: true,
                                        source_scroll: 0,
                                        editor,
                                        error: None,
                                        too_small: false,
                                    },
                                );
                                return ;
                            },
                            Err(error) => with_detail(
                                "Rule draft failed: ",
                                error.message().as_str(),
                            ),
                        }
                    },
                }
            },
        };
        self.note(status, now);
    }

    /// Takes note of what became of a decision to remember.
    pub fn submit_rule(
        &mut self,
        draft: &RuleDraft,
        outcome: Result<DecisionResponse, ControlClientError>,
        now: u128,
    )
        requires
            old(self)@.well_formed(),
        ensures
            final(self)@ == old(self)@.remembered(draft@, outcome, now),
            final(self)@.well_formed(),
    {
        let mut editing: Option<ApprovalRuleEditing> = None;
        std::mem::swap(&mut editing, &mut self.editing);
        let mut open = match editing {
            Some(open) => open,
            None => return ,
        };
        match outcome {
            Ok(_) => {
                let rest = with_detail(draft.scope.as_str(), " rule remembered");
                let rest = with_detail(" ", rest.as_str());
                let rest = with_detail(draft.action.as_word(), rest.as_str());
                let rest = with_detail(": ", rest.as_str());
                self.status = with_detail(open.approval_id.as_str(), rest.as_str());
            },
            Err(error) => {
                open.error = Some(with_detail("Session rule failed: ", error.message().as_str()));
                self.editing = Some(open);
            },
        }
        self.status_until = after(now, STATUS_TIME);
        self.next_poll = now;
    }
}

// ---------------------------------------------------------------------------
// Keys
// ---------------------------------------------------------------------------

/// Something to ask of the daemon, or to do with a file, on behalf of a key.
#[derive(Debug)]
pub enum Action {
    Decide { approval_id: ApprovalId, decision: DecisionRequest },
    ClearSessionRules,
    SaveSessionRules { value: String },
    OpenRuleEditor { approval_id: ApprovalId, action: RuleAction, scope: RuleScope },
    Remember { approval_id: ApprovalId, draft: RuleDraft },
}

/// The contents of an [`Action`].
pub enum ActionModel {
    Decide { approval_id: Seq<char>, decision: DecisionModel },
    ClearSessionRules,
    SaveSessionRules { value: Seq<char> },
    OpenRuleEditor { approval_id: Seq<char>, action: RuleAction, scope: RuleScope },
    Remember { approval_id: Seq<char>, draft: DraftModel },
}

impl View for Action {
    type V = ActionModel;

    open spec fn view(&self) -> ActionModel {
        match *self {
            Action::Decide { approval_id, decision } => ActionModel::Decide {
                approval_id: approval_id@,
                decision: decision@,
            },
            Action::ClearSessionRules => ActionModel::ClearSessionRules,
            Action::SaveSessionRules { value } => ActionModel::SaveSessionRules { value: value@ },
            Action::OpenRuleEditor { approval_id, action, scope } => ActionModel::OpenRuleEditor {
                approval_id: approval_id@,
                action,
                scope,
            },
            Action::Remember { approval_id, draft } => ActionModel::Remember {
                approval_id: approval_id@,
                draft: draft@,
            },
        }
    }
}

/// What a key comes to: whether to quit, and what to do.
#[derive(Debug)]
pub struct KeyOutcome {
    pub quit: bool,
    pub action: Option<Action>,
}

/// The contents of a [`KeyOutcome`].
pub struct OutcomeModel {
    pub quit: bool,
    pub action: Option<ActionModel>,
}

impl View for KeyOutcome {
    type V = OutcomeModel;

    open spec fn view(&self) -> OutcomeModel {
        OutcomeModel {
            quit: self.quit,
            action: match self.action {
                Some(action) => Some(action@),
                None => None,
            },
        }
    }
}

/// Nothing to do.
pub open spec fn nothing() -> OutcomeModel {
    OutcomeModel { quit: false, action: None }
}

/// The end of the client.
pub open spec fn quitting() -> OutcomeModel {
    OutcomeModel { quit: true, action: None }
}

/// One action.
pub open spec fn acting(action: ActionModel) -> OutcomeModel {
    OutcomeModel { quit: false, action: Some(action) }
}

/// A place on a scroll bar further down.
pub open spec fn scrolled_down(scroll: u16, lines: int) -> u16 {
    if scroll + lines > u16::MAX {
        u16::MAX
    } else {
        (scroll + lines) as u16
    }
}

/// A place on a scroll bar further up.
pub open spec fn scrolled_up(scroll: u16, lines: int) -> u16 {
    if scroll < lines {
        0
    } else {
        (scroll - lines) as u16
    }
}

impl AppModel {
    /// What a key does while a file name is typed.
    pub open spec fn save_key(self, key: KeyEvent) -> (AppModel, OutcomeModel) {
        match self.save {
            None => (self, nothing()),
            Some(save) => match key.code {
                KeyCode::Esc => (AppModel { save: None, ..self }, nothing()),
                KeyCode::Backspace => (
                    AppModel {
                        save: Some(SaveModel { value: shortened(save.value), error: None }),
                        ..self
                    },
                    nothing(),
                ),
                KeyCode::Char(c) => if key.modifiers.control {
                    (self, nothing())
                } else {
                    (
                        AppModel {
                            save: Some(SaveModel { value: save.value.push(c), ..save }),
                            ..self
                        },
                        nothing(),
                    )
                },
                KeyCode::Enter => if save.value.len() == 0 {
                    (
                        AppModel {
                            save: Some(
                                SaveModel { error: Some("Path must not be empty"@), ..save },
                            ),
                            ..self
                        },
                        nothing(),
                    )
                } else {
                    (
                        AppModel { save: None, ..self },
                        acting(ActionModel::SaveSessionRules { value: save.value }),
                    )
                },
                _ => (self, nothing()),
            },
        }
    }

    /// What a key does while the client asks whether to clear all rules.
    pub open spec fn clear_key(self, key: KeyEvent) -> (AppModel, OutcomeModel) {
        if key.kind != KeyEventKind::Press {
            (self, nothing())
        } else if key.code == KeyCode::Char('c') && key.modifiers.is_control_spec() {
            (self, quitting())
        } else if key.code == KeyCode::Char('y') && key.modifiers.is_none_spec() && self.connected
            && self.clear_confirmation == ClearConfirmation::Visible {
            (
                AppModel { clear_confirmation: ClearConfirmation::Closed, ..self },
                acting(ActionModel::ClearSessionRules),
            )
        } else if (key.code == KeyCode::Esc || key.code == KeyCode::Char('n'))
            && key.modifiers.is_none_spec() {
            (AppModel { clear_confirmation: ClearConfirmation::Closed, ..self }, nothing())
        } else {
            (self, nothing())
        }
    }

    /// What a key does while a rule is chosen.
    pub open spec fn edit_key(self, key: KeyEvent, now: u128) -> (AppModel, OutcomeModel) {
        match self.editing {
            None => (self, nothing()),
            Some(editing) => if editing.too_small && key.code != KeyCode::Esc {
                (self, nothing())
            } else if key.modifiers.is_control_spec() && (key.code == KeyCode::Up || key.code
                == KeyCode::Down) {
                let source_scroll = if key.code == KeyCode::Up {
                    scrolled_up(editing.source_scroll, 1)
                } else {
                    scrolled_down(editing.source_scroll, 1)
                };
                (
                    AppModel { editing: Some(EditingModel { source_scroll, ..editing }), ..self },
                    nothing(),
                )
            } else {
                let (editor, event) = editing.editor.after_key(key);
                let moved = EditingModel { editor, ..editing };
                let fresh = EditingModel { error: None, ..moved };
                match event {
                    SelectorEventModel::Continue => (
                        AppModel { editing: Some(moved), ..self },
                        nothing(),
                    ),
                    SelectorEventModel::Changed => (
                        AppModel { editing: Some(fresh), ..self },
                        nothing(),
                    ),
                    SelectorEventModel::Cancelled => (
                        AppModel { editing: None, next_poll: now, ..self },
                        nothing(),
                    ),
                    SelectorEventModel::Submit(draft) => match fresh.blocked() {
                        Some(error) => (
                            AppModel {
                                editing: Some(EditingModel { error: Some(error), ..fresh }),
                                ..self
                            },
                            nothing(),
                        ),
                        None => (
                            AppModel { editing: Some(fresh), ..self },
                            acting(
                                ActionModel::Remember { approval_id: editing.approval_id, draft },
                            ),
                        ),
                    },
                }
            },
        }
    }

    /// What a key does while a denial reason is typed.
    pub open spec fn reason_key(self, key: KeyEvent) -> (AppModel, OutcomeModel) {
        match self.reason {
            None => (self, nothing()),
            Some(reason) => match key.code {
                KeyCode::Esc => (AppModel { reason: None, ..self }, nothing()),
                KeyCode::Backspace => (
                    AppModel {
                        reason: Some(
                            ReasonModel { value: shortened(reason.value), error: None, ..reason },
                        ),
                        ..self
                    },
                    nothing(),
                ),
                KeyCode::Enter => match reason_error(reason.value) {
                    Some(error) => (
                        AppModel {
                            reason: Some(ReasonModel { error: Some(error.message()), ..reason }),
                            ..self
                        },
                        nothing(),
                    ),
                    None => (
                        AppModel { reason: None, ..self },
                        acting(
                            ActionModel::Decide {
                                approval_id: reason.approval_id,
                                decision: DecisionModel::Denied { reason: reason.value },
                            },
                        ),
                    ),
                },
                KeyCode::Char(c) => if !key.modifiers.control && utf8_len(reason.value.push(c))
                    <= MAX_DENIAL_REASON_BYTES {
                    (
                        AppModel {
                            reason: Some(
                                ReasonModel { value: reason.value.push(c), error: None, ..reason },
                            ),
                            ..self
                        },
                        nothing(),
                    )
                } else {
                    (
                        AppModel {
                            reason: Some(
                                ReasonModel {
                                    error: Some("Reason is limited to 4 KiB"@),
                                    ..reason
                                },
                            ),
                            ..self
                        },
                        nothing(),
                    )
                },
                _ => (self, nothing()),
            },
        }
    }

    /// The state with the selection moved by some places, within the queue.
    pub open spec fn moved(self, delta: int, now: u128) -> AppModel {
        match self.selected {
            None => self,
            Some(selected) => {
                let most = if self.approvals.len() == 0 {
                    0
                } else {
                    self.approvals.len() - 1
                };
                let next = if selected + delta < 0 {
                    0
                } else if selected + delta > most {
                    most
                } else {
                    selected + delta
                };
                if next == selected {
                    self
                } else {
                    AppModel {
                        selected: Some(next as usize),
                        detail_scroll: 0,
                        next_poll: now,
                        ..self
                    }
                }
            },
        }
    }

    /// What a key that stands for an action on the selected approval comes to.
    pub open spec fn on_selected(self, action: spec_fn(Seq<char>) -> ActionModel) -> OutcomeModel {
        match self.selected_id() {
            Some(id) => acting(action(id)),
            None => nothing(),
        }
    }

    /// What a key does while the queue is browsed.
    pub open spec fn browse_key(self, key: KeyEvent, now: u128) -> (AppModel, OutcomeModel) {
        let plain = key.modifiers.is_plain_spec();
        let control = key.modifiers.is_control_spec();
        let pressed = key.kind == KeyEventKind::Press;
        match key.code {
            KeyCode::Down => (self.moved(1, now), nothing()),
            KeyCode::Up => (self.moved(-1, now), nothing()),
            KeyCode::Tab => (
                AppModel { show_detail_panel: !self.show_detail_panel, ..self },
                nothing(),
            ),
            KeyCode::PageDown => (
                AppModel { detail_scroll: scrolled_down(self.detail_scroll, 20), ..self },
                nothing(),
            ),
            KeyCode::PageUp => (
                AppModel { detail_scroll: scrolled_up(self.detail_scroll, 20), ..self },
                nothing(),
            ),
            KeyCode::Char(c) => if !pressed && !key.modifiers.control && (c == 'a' || c == 'd' || c
                == 'D') {
                (self, nothing())
            } else if c == 'q' || c == 'c' && control {
                (self, quitting())
            } else if c == 'C' && plain && pressed && self.connected {
                (AppModel { clear_confirmation: ClearConfirmation::Hidden, ..self }, nothing())
            } else if c == 'S' && plain && pressed && self.connected {
                (
                    AppModel {
                        save: Some(SaveModel { value: Seq::empty(), error: None }),
                        ..self
                    },
                    nothing(),
                )
            } else if c == 'j' {
                (self.moved(1, now), nothing())
            } else if c == 'k' {
                (self.moved(-1, now), nothing())
            } else if c == 'd' && control {
                (
                    AppModel { detail_scroll: scrolled_down(self.detail_scroll, 10), ..self },
                    nothing(),
                )
            } else if c == 'u' && control {
                (
                    AppModel { detail_scroll: scrolled_up(self.detail_scroll, 10), ..self },
                    nothing(),
                )
            } else if c == 'g' {
                (AppModel { detail_scroll: 0, ..self }, nothing())
            } else if c == 'G' {
                (AppModel { detail_scroll: u16::MAX, ..self }, nothing())
            } else if c == 'a' && plain {
                (
                    self,
                    self.on_selected(
                        |id: Seq<char>|
                            ActionModel::Decide {
                                approval_id: id,
                                decision: DecisionModel::Granted,
                            },
                    ),
                )
            } else if (c == 'r' || c == 'p' || c == 'P' || c == 'A') && plain && pressed {
                (
                    self,
                    self.on_selected(
                        |id: Seq<char>|
                            ActionModel::OpenRuleEditor {
                                approval_id: id,
                                action: shortcut_action(c),
                                scope: shortcut_scope(c),
                            },
                    ),
                )
            } else if c == 'd' && plain {
                (
                    self,
                    self.on_selected(
                        |id: Seq<char>|
                            ActionModel::Decide {
                                approval_id: id,
                                decision: DecisionModel::Denied { reason: DEFAULT_DENIAL_REASON@ },
                            },
                    ),
                )
            } else if c == 'D' && plain {
                (
                    AppModel {
                        reason: match self.selected_id() {
                            Some(id) => Some(
                                ReasonModel { approval_id: id, value: Seq::empty(), error: None },
                            ),
                            None => self.reason,
                        },
                        ..self
                    },
                    nothing(),
                )
            } else {
                (self, nothing())
            },
            _ => (self, nothing()),
        }
    }

    /// What a key does.
    pub open spec fn after_key(self, key: KeyEvent, now: u128) -> (AppModel, OutcomeModel) {
        if self.save is Some {
            self.save_key(key)
        } else if self.clear_confirmation != ClearConfirmation::Closed {
            self.clear_key(key)
        } else if self.editing is Some {
            if key.code == KeyCode::Char('c') && key.modifiers.is_control_spec() {
                (self, quitting())
            } else {
                self.edit_key(key, now)
            }
        } else if self.reason is Some {
            self.reason_key(key)
        } else {
            self.browse_key(key, now)
        }
    }
}

/// The action that a key opens the rule selector with.
pub open spec fn shortcut_action(c: char) -> RuleAction {
    if c == 'p' || c == 'P' {
        RuleAction::Deny
    } else {
        RuleAction::Allow
    }
}

/// The scope that a key opens the rule selector with.
pub open spec fn shortcut_scope(c: char) -> RuleScope {
    if c == 'P' || c == 'A' {
        RuleScope::Directory
    } else {
        RuleScope::Path
    }
}

/// Nothing to do.
fn no_outcome() -> (result: KeyOutcome)
    ensures
        result@ == nothing(),
{
    KeyOutcome { quit: false, action: None }
}

/// The end of the client.
fn quit_outcome() -> (result: KeyOutcome)
    ensures
        result@ == quitting(),
{
    KeyOutcome { quit: true, action: None }
}

/// One action.
fn act(action: Action) -> (result: KeyOutcome)
    ensures
        result@ == acting(action@),
{
    KeyOutcome { quit: false, action: Some(action) }
}

/// Handles a key while a file name is typed.
pub fn handle_save_key(app: &mut App, key: KeyEvent) -> (result: KeyOutcome)
    requires
        old(app)@.well_formed(),
    ensures
        (final(app)@, result@) == old(app)@.save_key(key),
        final(app)@.well_formed(),
{
    let mut taken: Option<SaveInput> = None;
    std::mem::swap(&mut taken, &mut app.save);
    let mut save = match taken {
        Some(save) => save,
        None => return no_outcome(),
    };
    match key.code {
        KeyCode::Esc => return no_outcome(),
        KeyCode::Backspace => {
            save.value = shorten(save.value.as_str());
            save.error = None;
        },
        KeyCode::Char(c) => {
            if !key.modifiers.control {
                save.value.push(c);
            }
        },
        KeyCode::Enter => {
            if save.value.as_str().is_empty() {
                save.error = Some("Path must not be empty".to_owned());
            } else {
                return act(Action::SaveSessionRules { value: save.value });
            }
        },
        _ => {},
    }
    app.save = Some(save);
    no_outcome()
}

/// Handles a key while the client asks whether to clear all rules.
pub fn handle_clear_rules_key(app: &mut App, key: KeyEvent) -> (result: KeyOutcome)
    requires
        old(app)@.well_formed(),
    ensures
        (final(app)@, result@) == old(app)@.clear_key(key),
        final(app)@.well_formed(),
{
    if key.kind != KeyEventKind::Press {
        return no_outcome();
    }
    if key.code == KeyCode::Char('c') && key.modifiers.is_control() {
        return quit_outcome();
    }
    if key.code == KeyCode::Char('y') && key.modifiers.is_none() && app.connected
        && app.clear_confirmation == ClearConfirmation::Visible {
        app.clear_confirmation = ClearConfirmation::Closed;
        return act(Action::ClearSessionRules);
    }
    if (key.code == KeyCode::Esc || key.code == KeyCode::Char('n')) && key.modifiers.is_none() {
        app.clear_confirmation = ClearConfirmation::Closed;
    }
    no_outcome()
}

/// Handles a key while a denial reason is typed.
pub fn handle_reason_key(app: &mut App, key: KeyEvent) -> (result: KeyOutcome)
    requires
        old(app)@.well_formed(),
    ensures
        (final(app)@, result@) == old(app)@.reason_key(key),
        final(app)@.well_formed(),
{
    let mut taken: Option<ReasonInput> = None;
    std::mem::swap(&mut taken, &mut app.reason);
    let mut reason = match taken {
        Some(reason) => reason,
        None => return no_outcome(),
    };
    match key.code {
        KeyCode::Esc => return no_outcome(),
        KeyCode::Backspace => {
            reason.value = shorten(reason.value.as_str());
            reason.error = None;
        },
        KeyCode::Enter => {
            match validate_denial_reason(reason.value.as_str()) {
                Err(error) => {
                    reason.error = Some(error.message());
                },
                Ok(()) => {
                    return act(
                        Action::Decide {
                            approval_id: reason.approval_id,
                            decision: DecisionRequest::Denied { reason: reason.value },
                        },
                    );
                },
            }
        },
        KeyCode::Char(c) => {
            let mut grown = reason.value.clone();
            grown.push(c);
            if !key.modifiers.control && byte_len(grown.as_str()) <= MAX_DENIAL_REASON_BYTES {
                reason.value = grown;
                reason.error = None;
            } else {
                reason.error = Some("Reason is limited to 4 KiB".to_owned());
            }
        },
        _ => {},
    }
    app.reason = Some(reason);
    no_outcome()
}

impl App {
    /// Handles a key while a rule is chosen.
    pub fn edit_rule(&mut self, key: KeyEvent, now: u128) -> (result: KeyOutcome)
        requires
            old(self)@.well_formed(),
        ensures
            (final(self)@, result@) == old(self)@.edit_key(key, now),
            final(self)@.well_formed(),
    {
        let mut taken: Option<ApprovalRuleEditing> = None;
        std::mem::swap(&mut taken, &mut self.editing);
        let mut editing = match taken {
            Some(editing) => editing,
            None => return no_outcome(),
        };
        if editing.too_small && key.code != KeyCode::Esc {
            self.editing = Some(editing);
            return no_outcome();
        }
        if key.modifiers.is_control() && (key.code == KeyCode::Up || key.code == KeyCode::Down) {
            editing.source_scroll = if key.code == KeyCode::Up {
                editing.source_scroll.saturating_sub(1)
            } else {
                editing.source_scroll.saturating_add(1)
            };
            self.editing = Some(editing);
            return no_outcome();
        }
        match editing.editor.handle_key(key) {
            SelectorEvent::Continue => {},
            SelectorEvent::Changed => {
                editing.error = None;
            },
            SelectorEvent::Cancelled => {
                self.next_poll = now;
                return no_outcome();
            },
            SelectorEvent::Submit(draft) => {
                editing.error = None;
                match editing.blocked() {
                    Some(error) => {
                        editing.error = Some(error);
                    },
                    None => {
                        let approval_id = editing.approval_id.clone();
                        self.editing = Some(editing);
                        return act(Action::Remember { approval_id, draft });
                    },
                }
            },
        }
        self.editing = Some(editing);
        no_outcome()
    }

    /// Moves the selection by some places, within the queue.
    pub fn move_selection(&mut self, delta: isize, now: u128)
        requires
            old(self)@.well_formed(),
        ensures
            final(self)@ == old(self)@.moved(delta as int, now),
            final(self)@.well_formed(),
    {
        let selected = match self.selected {
            Some(selected) => selected,
            None => return ,
        };
        let most: usize = if self.approvals.len() == 0 {
            0
        } else {
            self.approvals.len() - 1
        };
        let wanted: i128 = selected as i128 + delta as i128;
        let next: usize = if wanted < 0 {
            0
        } else if wanted > most as i128 {
            most
        } else {
            wanted as usize
        };
        if next != selected {
            self.selected = Some(next);
            self.detail_scroll = 0;
            self.next_poll = now;
        }
    }

    /// Handles a letter while the queue is browsed.
    fn browse_letter(&mut self, c: char, key: KeyEvent, now: u128) -> (result: KeyOutcome)
        requires
            old(self)@.well_formed(),
            key.code == KeyCode::Char(c),
        ensures
            (final(self)@, result@) == old(self)@.browse_key(key, now),
            final(self)@.well_formed(),
    {
        let plain = key.modifiers.is_plain();
        let control = key.modifiers.is_control();
        let pressed = key.kind == KeyEventKind::Press;
        if !pressed && !key.modifiers.control && (c == 'a' || c == 'd' || c == 'D') {
            return no_outcome();
        }
        if c == 'q' || (c == 'c' && control) {
            return quit_outcome();
        }
        if c == 'C' && plain && pressed && self.connected {
            self.clear_confirmation = ClearConfirmation::Hidden;
        } else if c == 'S' && plain && pressed && self.connected {
            self.save = Some(SaveInput { value: String::new(), error: None });
        } else if c == 'j' {
            self.move_selection(1, now);
        } else if c == 'k' {
            self.move_selection(-1, now);
        } else if c == 'd' && control {
            self.detail_scroll = self.detail_scroll.saturating_add(10);
        } else if c == 'u' && control {
            self.detail_scroll = self.detail_scroll.saturating_sub(10);
        } else if c == 'g' {
            self.detail_scroll = 0;
        } else if c == 'G' {
            self.detail_scroll = u16::MAX;
        } else if c == 'a' && plain {
            if let Some(approval_id) = self.selected_id() {
                return act(Action::Decide { approval_id, decision: DecisionRequest::Granted });
            }
        } else if (c == 'r' || c == 'p' || c == 'P' || c == 'A') && plain && pressed {
            if let Some(approval_id) = self.selected_id() {
                let action = if c == 'p' || c == 'P' {
                    RuleAction::Deny
                } else {
                    RuleAction::Allow
                };
                let scope = if c == 'P' || c == 'A' {
                    RuleScope::Directory
                } else {
                    RuleScope::Path
                };
                return act(Action::OpenRuleEditor { approval_id, action, scope });
            }
        } else if c == 'd' && plain {
            if let Some(approval_id) = self.selected_id() {
                return act(
                    Action::Decide {
                        approval_id,
                        decision: DecisionRequest::Denied {
                            reason: DEFAULT_DENIAL_REASON.to_owned(),
                        },
                    },
                );
            }
        } else if c == 'D' && plain {
            if let Some(approval_id) = self.selected_id() {
                self.reason = Some(
                    ReasonInput { approval_id, value: String::new(), error: None },
                );
            }
        }
        no_outcome()
    }
}

/// Handles a key.
pub fn handle_key(app: &mut App, key: KeyEvent, now: u128) -> (result: KeyOutcome)
    requires
        old(app)@.well_formed(),
    ensures
        (final(app)@, result@) == old(app)@.after_key(key, now),
        final(app)@.well_formed(),
{
    if app.save.is_some() {
        return handle_save_key(app, key);
    }
    if app.clear_confirmation != ClearConfirmation::Closed {
        return handle_clear_rules_key(app, key);
    }
    if app.editing.is_some() {
        if key.code == KeyCode::Char('c') && key.modifiers.is_control() {
            return quit_outcome();
        }
        return app.edit_rule(key, now);
    }
    if app.reason.is_some() {
        return handle_reason_key(app, key);
    }
    match key.code {
        KeyCode::Char(c) => return app.browse_letter(c, key, now),
        KeyCode::Down => app.move_selection(1, now),
        KeyCode::Up => app.move_selection(-1, now),
        KeyCode::Tab => {
            app.show_detail_panel = !app.show_detail_panel;
        },
        KeyCode::PageDown => {
            app.detail_scroll = app.detail_scroll.saturating_add(20);
        },
        KeyCode::PageUp => {
            app.detail_scroll = app.detail_scroll.saturating_sub(20);
        },
        _ => {},
    }
    no_outcome()
}

// ---------------------------------------------------------------------------
// Laws
// ---------------------------------------------------------------------------

/// The approval that an action decides, if it decides one.
pub open spec fn decides(action: Option<ActionModel>) -> Option<Seq<char>> {
    match action {
        Some(ActionModel::Decide { approval_id, .. }) => Some(approval_id),
        Some(ActionModel::Remember { approval_id, .. }) => Some(approval_id),
        _ => None,
    }
}

/// Enter decides nothing and confirms nothing, except that it submits a denial reason that was
/// typed.
pub proof fn enter_never_approves(app: AppModel, key: KeyEvent, now: u128)
    requires
        app.well_formed(),
        key.code == KeyCode::Enter,
    ensures
        ({
            let action = app.after_key(key, now).1.action;
            match action {
                Some(ActionModel::Decide { approval_id, decision }) => app.reason matches Some(reason)
                    && approval_id == reason.approval_id && decision == (DecisionModel::Denied {
                    reason: reason.value,
                }),
                Some(ActionModel::SaveSessionRules { .. }) => app.save is Some,
                Some(_) => false,
                None => true,
            }
        }),
        !app.after_key(key, now).1.quit,
{
}

/// A key decides only the approval that it is about: the one for which a rule is chosen or a reason
/// typed, and otherwise the one that is selected.
pub proof fn keys_decide_one_fixed_approval(app: AppModel, key: KeyEvent, now: u128)
    requires
        app.well_formed(),
    ensures
        decides(app.after_key(key, now).1.action) matches Some(id) ==> app.save is None && (
        match (app.editing, app.reason) {
            (Some(editing), _) => id == editing.approval_id,
            (None, Some(reason)) => id == reason.approval_id,
            (None, None) => app.selected_id() == Some(id),
        }),
{
}

/// While the queue is browsed, a decision takes a key that went down with no modifier but shift.
pub proof fn decisions_take_a_plain_press(app: AppModel, key: KeyEvent, now: u128)
    requires
        app.reason is None,
        app.editing is None,
        decides(app.after_key(key, now).1.action) is Some,
    ensures
        key.kind == KeyEventKind::Press,
        key.modifiers.is_plain_spec(),
        key.code == KeyCode::Char('a') || key.code == KeyCode::Char('d'),
{
}

/// Rules are cleared only by `y` alone, pressed while the question can be read and the daemon is
/// there; and every key that answers the question closes it.
pub proof fn clearing_needs_a_visible_question(app: AppModel, key: KeyEvent, now: u128)
    requires
        app.after_key(key, now).1.action == Some(ActionModel::ClearSessionRules),
    ensures
        app.clear_confirmation == ClearConfirmation::Visible,
        app.connected,
        key.code == KeyCode::Char('y'),
        key.kind == KeyEventKind::Press,
        key.modifiers.is_none_spec(),
        app.after_key(key, now).0.clear_confirmation == ClearConfirmation::Closed,
{
}

/// While the client asks whether to clear all rules, no key decides or moves anything.
pub proof fn the_question_shields_the_queue(app: AppModel, key: KeyEvent, now: u128)
    requires
        app.save is None,
        app.clear_confirmation != ClearConfirmation::Closed,
    ensures
        decides(app.after_key(key, now).1.action) is None,
        app.after_key(key, now).0 == (AppModel {
            clear_confirmation: app.after_key(key, now).0.clear_confirmation,
            ..app
        }),
{
}

/// Keys never change what the daemon told.
pub proof fn keys_keep_what_the_daemon_told(app: AppModel, key: KeyEvent, now: u128)
    ensures
        ({
            let after = app.after_key(key, now).0;
            &&& after.client == app.client
            &&& after.connected == app.connected
            &&& after.approvals == app.approvals
            &&& after.detail == app.detail
            &&& after.debug_capture == app.debug_capture
            &&& after.session_rule_count == app.session_rule_count
        }),
{
}

/// A disconnect forgets everything that the daemon told, and everything that was being typed about
/// it.
pub proof fn disconnects_forget_everything(app: AppModel, now: u128)
    ensures
        ({
            let after = app.disconnected(now);
            &&& !after.connected
            &&& after.approvals.len() == 0
            &&& after.selected_id() is None
            &&& after.detail is None
            &&& after.detail_scroll == 0
            &&& after.reason is None
            &&& after.editing is None
            &&& after.clear_confirmation == ClearConfirmation::Closed
            &&& after.session_rule_count == 0
        }),
{
}

/// In a new queue the selected approval stays selected wherever it is; if it is gone, its place or
/// the last place is selected; and an empty queue has no selection.
pub proof fn selection_follows_the_approval(app: AppModel, approvals: Seq<SummaryModel>)
    requires
        app.editing is None,
        approvals.len() <= usize::MAX,
    ensures
        ({
            let after = app.listed(approvals);
            &&& after.selected is None <==> approvals.len() == 0
            &&& app.selected_id() matches Some(id) ==> {
                ||| after.selected_id() == Some(id)
                ||| (forall|i: int|
                    0 <= i < approvals.len() ==> (#[trigger] approvals[i]).approval_id != id) && (
                after.selected matches Some(i) ==> i < approvals.len() && (i == app.selected->0 || (i
                    == approvals.len() - 1 && i < app.selected->0)))
            }
        }),
{
    if let Some(id) = app.selected_id() {
        lemma_id_position(approvals, id);
    }
}

/// A rule that is being chosen stays bound to its request: a new queue selects that approval or
/// none, and once the approval is gone it never comes back.
pub proof fn rules_are_never_rebound(app: AppModel, approvals: Seq<SummaryModel>)
    requires
        app.editing is Some,
        approvals.len() <= usize::MAX,
    ensures
        ({
            let before = app.editing->0;
            let after = app.listed(approvals);
            &&& after.editing matches Some(editing) && editing.approval_id == before.approval_id
                && editing.request == before.request && editing.editor == before.editor
            &&& after.selected_id() matches Some(id) ==> id == before.approval_id
            &&& after.editing->0.available ==> before.available
            &&& after.selected_id() is None ==> !after.editing->0.available
        }),
{
    lemma_id_position(approvals, app.editing->0.approval_id);
}

/// A rule is submitted only while its request is pending, as far as the client knows, while the
/// choice can be read, and if it covers the request.
pub proof fn submitted_rules_cover_their_request(app: AppModel, key: KeyEvent, now: u128)
    requires
        app.well_formed(),
        app.after_key(key, now).1.action is Some,
        app.after_key(key, now).1.action->0 is Remember,
    ensures
        ({
            let action = app.after_key(key, now).1.action->0;
            &&& app.editing matches Some(editing) && editing.available && !editing.too_small
                && action->Remember_draft.source_error(editing.request) is None
            &&& key.kind == KeyEventKind::Press
            &&& key.code == KeyCode::Char('a') || key.code == KeyCode::Char('d')
        }),
{
    let editing = app.editing->0;
    let (editor, event) = editing.editor.after_key(key);
    let draft = event->Submit_0;
    assert(draft.path == editor.draft.path && draft.scope == editor.draft.scope && draft.access
        == editor.draft.access);
    assert(editor.draft.compiled().pattern == draft.compiled().pattern);
}

/// A denial reason that is typed never exceeds its limit.
pub proof fn typed_reasons_stay_within_the_limit(app: AppModel, key: KeyEvent, now: u128)
    requires
        app.reason matches Some(reason) ==> utf8_len(reason.value) <= MAX_DENIAL_REASON_BYTES,
    ensures
        app.after_key(key, now).0.reason matches Some(reason) ==> utf8_len(reason.value)
            <= MAX_DENIAL_REASON_BYTES,
{
    let after = app.after_key(key, now).0;
    if let Some(reason) = app.reason {
        if reason.value.len() > 0 {
            let short = reason.value.drop_last();
            let last = seq![reason.value.last()];
            crate::text::lemma_utf8_concat(short, last);
            assert(short + last =~= reason.value);
        }
    }
    crate::text::lemma_utf8_concat(Seq::empty(), Seq::empty());
    assert(Seq::<char>::empty() + Seq::<char>::empty() =~= Seq::<char>::empty());
}

/// A denial reason that is submitted is one that the daemon takes.
pub proof fn submitted_reasons_are_valid(app: AppModel, key: KeyEvent, now: u128)
    requires
        app.reason is Some,
        app.editing is None,
        app.after_key(key, now).1.action is Some,
        app.after_key(key, now).1.action->0 is Decide,
    ensures
        app.after_key(key, now).1.action == Some(
            ActionModel::Decide {
                approval_id: app.reason->0.approval_id,
                decision: DecisionModel::Denied { reason: app.reason->0.value },
            },
        ),
        reason_error(app.reason->0.value) is None,
{
}

// ---------------------------------------------------------------------------
// Laws of single keys and answers
// ---------------------------------------------------------------------------

/// Whether the queue is browsed, with nothing open above it.
pub open spec fn browses(app: AppModel) -> bool {
    &&& app.save is None
    &&& app.clear_confirmation == ClearConfirmation::Closed
    &&& app.editing is None
    &&& app.reason is None
}

/// Up and `k` select the approval before the selected one and keep the first; down and `j` select
/// the one after it and keep the last. They do nothing else.
pub proof fn arrows_move_by_one(app: AppModel, key: KeyEvent, now: u128)
    requires
        browses(app),
        app.selected is Some,
        app.selected->0 < app.approvals.len(),
        app.approvals.len() <= usize::MAX,
    ensures
        ({
            let (after, outcome) = app.after_key(key, now);
            let i = app.selected->0;
            &&& key.code == KeyCode::Up || key.code == KeyCode::Char('k') ==> {
                &&& !outcome.quit && outcome.action is None
                &&& i > 0 ==> after.selected is Some && after.selected->0 == i - 1
                &&& i == 0 ==> after == app
            }
            &&& key.code == KeyCode::Down || key.code == KeyCode::Char('j') ==> {
                &&& !outcome.quit && outcome.action is None
                &&& i + 1 < app.approvals.len() ==> after.selected is Some && after.selected->0 == i
                    + 1
                &&& i + 1 == app.approvals.len() ==> after == app
            }
            &&& key.code == KeyCode::Up || key.code == KeyCode::Char('k') || key.code
                == KeyCode::Down || key.code == KeyCode::Char('j') ==> {
                &&& browses(after)
                &&& after.approvals == app.approvals
                &&& after.selected != app.selected ==> after.detail_scroll == 0 && after.next_poll
                    == now
            }
        }),
{
}

/// Without a selection the arrows do nothing.
pub proof fn nothing_moves_without_a_selection(app: AppModel, key: KeyEvent, now: u128)
    requires
        browses(app),
        app.selected is None,
        key.code == KeyCode::Up || key.code == KeyCode::Down || key.code == KeyCode::Char('j')
            || key.code == KeyCode::Char('k'),
    ensures
        app.after_key(key, now) == (app, OutcomeModel { quit: false, action: None }),
{
}

/// Going down and up again, or up and down again, comes back to the same approval, away from the
/// ends of the queue.
pub proof fn going_back_restores_the_selection(
    app: AppModel,
    down: KeyEvent,
    up: KeyEvent,
    now: u128,
    then: u128,
)
    requires
        browses(app),
        app.selected is Some,
        app.selected->0 < app.approvals.len(),
        app.approvals.len() <= usize::MAX,
        down.code == KeyCode::Down || down.code == KeyCode::Char('j'),
        up.code == KeyCode::Up || up.code == KeyCode::Char('k'),
    ensures
        app.selected->0 + 1 < app.approvals.len() ==> app.after_key(down, now).0.after_key(
            up,
            then,
        ).0.selected == app.selected,
        app.selected->0 > 0 ==> app.after_key(up, now).0.after_key(down, then).0.selected
            == app.selected,
{
    arrows_move_by_one(app, down, now);
    arrows_move_by_one(app, up, now);
    if app.selected->0 + 1 < app.approvals.len() {
        arrows_move_by_one(app.after_key(down, now).0, up, then);
    }
    if app.selected->0 > 0 {
        arrows_move_by_one(app.after_key(up, now).0, down, then);
    }
}

/// The selected approval is the one at the selected place of the queue.
pub proof fn the_selection_is_a_place_in_the_queue(app: AppModel)
    ensures
        app.selected is None ==> app.selected_id() is None,
        app.selected is Some && app.selected->0 < app.approvals.len() ==> app.selected_id() == Some(
            app.approvals[app.selected->0 as int].approval_id,
        ),
        app.selected is Some && app.selected->0 >= app.approvals.len() ==> app.selected_id() is None,
{
}

/// Pressed alone, `a` grants the selected approval, `d` denies it with the usual reason, `r` and
/// `A` open a rule that allows it, `p` and `P` one that denies it; capitals are about the directory.
pub proof fn letters_act_on_the_selected_approval(app: AppModel, c: char, now: u128)
    requires
        browses(app),
        app.selected_id() is Some,
    ensures
        ({
            let key = KeyEvent {
                code: KeyCode::Char(c),
                modifiers: crate::keys::no_modifiers(),
                kind: KeyEventKind::Press,
            };
            let (after, outcome) = app.after_key(key, now);
            let id = app.selected_id()->0;
            &&& c == 'a' ==> after == app && !outcome.quit && outcome.action == Some(
                ActionModel::Decide { approval_id: id, decision: DecisionModel::Granted },
            )
            &&& c == 'd' ==> after == app && !outcome.quit && outcome.action == Some(
                ActionModel::Decide {
                    approval_id: id,
                    decision: DecisionModel::Denied { reason: "denied by local user"@ },
                },
            )
            &&& c == 'r' ==> after == app && !outcome.quit && outcome.action == Some(
                ActionModel::OpenRuleEditor {
                    approval_id: id,
                    action: RuleAction::Allow,
                    scope: RuleScope::Path,
                },
            )
            &&& c == 'A' ==> after == app && !outcome.quit && outcome.action == Some(
                ActionModel::OpenRuleEditor {
                    approval_id: id,
                    action: RuleAction::Allow,
                    scope: RuleScope::Directory,
                },
            )
            &&& c == 'p' ==> after == app && !outcome.quit && outcome.action == Some(
                ActionModel::OpenRuleEditor {
                    approval_id: id,
                    action: RuleAction::Deny,
                    scope: RuleScope::Path,
                },
            )
            &&& c == 'P' ==> after == app && !outcome.quit && outcome.action == Some(
                ActionModel::OpenRuleEditor {
                    approval_id: id,
                    action: RuleAction::Deny,
                    scope: RuleScope::Directory,
                },
            )
            &&& c == 'D' ==> outcome.action is None && !outcome.quit && after == (AppModel {
                reason: Some(ReasonModel { approval_id: id, value: Seq::empty(), error: None }),
                ..app
            })
        }),
{
}

/// A key that is held down decides nothing, and without a selection nothing is decided or opened.
pub proof fn held_keys_decide_nothing(app: AppModel, key: KeyEvent, now: u128)
    requires
        browses(app),
        key.kind != KeyEventKind::Press || app.selected_id() is None,
    ensures
        app.after_key(key, now).1.action is None,
        app.after_key(key, now).0.reason is None,
{
}

/// `q`, and `c` with control, quit and change nothing; no other key quits while the queue is
/// browsed.
pub proof fn only_q_and_control_c_quit(app: AppModel, key: KeyEvent, now: u128)
    requires
        browses(app),
    ensures
        app.after_key(key, now).1.quit <==> key.code == KeyCode::Char('q') || (key.code
            == KeyCode::Char('c') && key.modifiers.control && !key.modifiers.shift
            && !key.modifiers.alt && !key.modifiers.logo && !key.modifiers.hyper
            && !key.modifiers.meta),
        app.after_key(key, now).1.quit ==> app.after_key(key, now).0 == app
            && app.after_key(key, now).1.action is None,
{
}

/// The detail scrolls down by pages and half pages and up again by as much, `g` goes to its start,
/// `G` to its end, and tab turns the panel over.
pub proof fn scrolling_goes_down_and_up(app: AppModel, now: u128, then: u128)
    requires
        browses(app),
    ensures
        ({
            let none = crate::keys::no_modifiers();
            let held = crate::keys::KeyModifiers { control: true, ..none };
            let press = KeyEventKind::Press;
            let page_down = app.after_key(
                KeyEvent { code: KeyCode::PageDown, modifiers: none, kind: press },
                now,
            ).0;
            let page_up = app.after_key(
                KeyEvent { code: KeyCode::PageUp, modifiers: none, kind: press },
                now,
            ).0;
            let half_down = app.after_key(
                KeyEvent { code: KeyCode::Char('d'), modifiers: held, kind: press },
                now,
            );
            let half_up = app.after_key(
                KeyEvent { code: KeyCode::Char('u'), modifiers: held, kind: press },
                now,
            ).0;
            let start = app.after_key(
                KeyEvent { code: KeyCode::Char('g'), modifiers: none, kind: press },
                now,
            ).0;
            let end = app.after_key(
                KeyEvent { code: KeyCode::Char('G'), modifiers: none, kind: press },
                now,
            ).0;
            let turned = app.after_key(
                KeyEvent { code: KeyCode::Tab, modifiers: none, kind: press },
                now,
            ).0;
            let at = app.detail_scroll as int;
            &&& at <= 65515 ==> page_down.detail_scroll == at + 20
            &&& at > 65515 ==> page_down.detail_scroll == 65535
            &&& at >= 20 ==> page_up.detail_scroll == at - 20
            &&& at < 20 ==> page_up.detail_scroll == 0
            &&& half_down.1.action is None
            &&& at <= 65525 ==> half_down.0.detail_scroll == at + 10
            &&& at > 65525 ==> half_down.0.detail_scroll == 65535
            &&& at >= 10 ==> half_up.detail_scroll == at - 10
            &&& at < 10 ==> half_up.detail_scroll == 0
            &&& start.detail_scroll == 0
            &&& end.detail_scroll == 65535
            &&& turned.show_detail_panel == !app.show_detail_panel
            &&& turned.detail_scroll == app.detail_scroll
            &&& turned.after_key(
                KeyEvent { code: KeyCode::Tab, modifiers: none, kind: press },
                then,
            ).0.show_detail_panel == app.show_detail_panel
            &&& page_down.selected == app.selected && page_up.selected == app.selected
        }),
{
}

/// While the daemon is there, `C` asks whether to clear all rules, out of sight until it is drawn,
/// and `S` asks for a path, empty at first.
pub proof fn capitals_open_questions(app: AppModel, now: u128)
    requires
        browses(app),
    ensures
        ({
            let none = crate::keys::no_modifiers();
            let press = KeyEventKind::Press;
            let clear = app.after_key(
                KeyEvent { code: KeyCode::Char('C'), modifiers: none, kind: press },
                now,
            );
            let save = app.after_key(
                KeyEvent { code: KeyCode::Char('S'), modifiers: none, kind: press },
                now,
            );
            &&& clear.1.action is None && save.1.action is None
            &&& app.connected ==> clear.0 == (AppModel {
                clear_confirmation: ClearConfirmation::Hidden,
                ..app
            })
            &&& app.connected ==> save.0 == (AppModel {
                save: Some(SaveModel { value: Seq::empty(), error: None }),
                ..app
            })
            &&& !app.connected ==> clear.0 == app && save.0 == app
        }),
{
}

/// The question whether to clear all rules is answered by `y`, if it can be read, and closed by `n`
/// and escape; `c` with control quits.
pub proof fn the_question_is_answered_by_yes_or_no(app: AppModel, now: u128)
    requires
        app.save is None,
        app.clear_confirmation != ClearConfirmation::Closed,
    ensures
        ({
            let none = crate::keys::no_modifiers();
            let held = crate::keys::KeyModifiers { control: true, ..none };
            let press = KeyEventKind::Press;
            let yes = app.after_key(
                KeyEvent { code: KeyCode::Char('y'), modifiers: none, kind: press },
                now,
            );
            let no = app.after_key(
                KeyEvent { code: KeyCode::Char('n'), modifiers: none, kind: press },
                now,
            );
            let escape = app.after_key(
                KeyEvent { code: KeyCode::Esc, modifiers: none, kind: press },
                now,
            );
            let quit = app.after_key(
                KeyEvent { code: KeyCode::Char('c'), modifiers: held, kind: press },
                now,
            );
            &&& yes.1.action == Some(ActionModel::ClearSessionRules) <==> app.connected
                && app.clear_confirmation == ClearConfirmation::Visible
            &&& yes.0.clear_confirmation == ClearConfirmation::Closed <==> app.connected
                && app.clear_confirmation == ClearConfirmation::Visible
            &&& no.0.clear_confirmation == ClearConfirmation::Closed && no.1.action is None
            &&& escape.0.clear_confirmation == ClearConfirmation::Closed && escape.1.action is None
            &&& quit.1.quit && quit.0 == app
            &&& !yes.1.quit && !no.1.quit && !escape.1.quit
        }),
{
}

/// Whether a denial reason is being typed, with nothing above it.
pub open spec fn types_reason(app: AppModel) -> bool {
    &&& app.save is None
    &&& app.clear_confirmation == ClearConfirmation::Closed
    &&& app.editing is None
    &&& app.reason is Some
}

/// A reason grows by what is typed and shrinks by backspace, so that backspace takes back the last
/// character; enter submits it as it stands, if it is valid, and escape drops it.
pub proof fn reasons_are_typed_character_by_character(
    app: AppModel,
    c: char,
    modifiers: crate::keys::KeyModifiers,
    kind: KeyEventKind,
    now: u128,
)
    requires
        types_reason(app),
        !modifiers.control,
    ensures
        ({
            let reason = app.reason->0;
            let typed = app.after_key(KeyEvent { code: KeyCode::Char(c), modifiers, kind }, now);
            let erased = app.after_key(KeyEvent { code: KeyCode::Backspace, modifiers, kind }, now);
            let entered = app.after_key(KeyEvent { code: KeyCode::Enter, modifiers, kind }, now);
            let dropped = app.after_key(KeyEvent { code: KeyCode::Esc, modifiers, kind }, now);
            &&& typed.1.action is None && erased.1.action is None && dropped.1.action is None
            &&& !typed.1.quit && !erased.1.quit && !dropped.1.quit && !entered.1.quit
            &&& typed.0.reason is Some && typed.0.reason->0.approval_id == reason.approval_id
            &&& utf8_len(reason.value.push(c)) <= 4096 ==> typed.0.reason->0.value
                == reason.value.push(c) && typed.0.reason->0.error is None
            &&& utf8_len(reason.value.push(c)) > 4096 ==> typed.0.reason->0.value == reason.value
                && typed.0.reason->0.error == Some("Reason is limited to 4 KiB"@)
            &&& erased.0.reason is Some && erased.0.reason->0.approval_id == reason.approval_id
            &&& reason.value.len() > 0 ==> erased.0.reason->0.value == reason.value.drop_last()
            &&& reason.value.len() == 0 ==> erased.0.reason->0.value == reason.value
            &&& erased.0.reason->0.error is None
            &&& dropped.0.reason is None
            &&& reason_error(reason.value) is None ==> entered.0.reason is None
                && entered.1.action == Some(
                ActionModel::Decide {
                    approval_id: reason.approval_id,
                    decision: DecisionModel::Denied { reason: reason.value },
                },
            )
            &&& reason_error(reason.value) matches Some(error) ==> entered.1.action is None
                && entered.0.reason is Some && entered.0.reason->0.value == reason.value
                && entered.0.reason->0.error == Some(error.message())
            &&& typed.0.selected == app.selected && erased.0.selected == app.selected
        }),
{
}

/// Backspace takes back what was typed last, in a reason and in a path.
pub proof fn backspace_takes_back_the_last_character(
    app: AppModel,
    c: char,
    modifiers: crate::keys::KeyModifiers,
    kind: KeyEventKind,
    now: u128,
)
    requires
        !modifiers.control,
        types_reason(app) && utf8_len(app.reason->0.value.push(c)) <= 4096 || app.save is Some,
    ensures
        ({
            let typed = app.after_key(KeyEvent { code: KeyCode::Char(c), modifiers, kind }, now).0;
            let erased = typed.after_key(
                KeyEvent { code: KeyCode::Backspace, modifiers, kind },
                now,
            ).0;
            &&& app.save is None ==> erased.reason is Some && erased.reason->0.value
                == app.reason->0.value
            &&& app.save is Some ==> erased.save is Some && erased.save->0.value
                == app.save->0.value
        }),
{
    if app.save is Some {
        assert(app.save->0.value.push(c).drop_last() =~= app.save->0.value);
    } else {
        assert(app.reason->0.value.push(c).drop_last() =~= app.reason->0.value);
    }
}

/// A path to save to grows by what is typed and shrinks by backspace; enter saves under the path as
/// it stands, unless it is empty, and escape drops it. Nothing else happens meanwhile.
pub proof fn paths_are_typed_character_by_character(
    app: AppModel,
    c: char,
    modifiers: crate::keys::KeyModifiers,
    kind: KeyEventKind,
    now: u128,
)
    requires
        app.save is Some,
        !modifiers.control,
    ensures
        ({
            let save = app.save->0;
            let typed = app.after_key(KeyEvent { code: KeyCode::Char(c), modifiers, kind }, now);
            let erased = app.after_key(KeyEvent { code: KeyCode::Backspace, modifiers, kind }, now);
            let entered = app.after_key(KeyEvent { code: KeyCode::Enter, modifiers, kind }, now);
            let dropped = app.after_key(KeyEvent { code: KeyCode::Esc, modifiers, kind }, now);
            &&& typed.1.action is None && erased.1.action is None && dropped.1.action is None
            &&& typed.0.save == Some(SaveModel { value: save.value.push(c), error: save.error })
            &&& erased.0.save is Some && erased.0.save->0.error is None
            &&& save.value.len() > 0 ==> erased.0.save->0.value == save.value.drop_last()
            &&& save.value.len() == 0 ==> erased.0.save->0.value == save.value
            &&& dropped.0.save is None
            &&& save.value.len() > 0 ==> entered.0.save is None && entered.1.action == Some(
                ActionModel::SaveSessionRules { value: save.value },
            )
            &&& save.value.len() == 0 ==> entered.1.action is None && entered.0.save == Some(
                SaveModel { value: save.value, error: Some("Path must not be empty"@) },
            )
        }),
        forall|key: KeyEvent|
            (#[trigger] app.after_key(key, now)).0 == (AppModel {
                save: app.after_key(key, now).0.save,
                ..app
            }) && !app.after_key(key, now).1.quit,
{
}

/// While a rule is chosen, `a` remembers one that allows and `d` one that denies, unless something
/// blocks it; escape leaves; and control with the arrows scrolls what the rule is about.
pub proof fn rules_are_submitted_by_their_letter(app: AppModel, now: u128)
    requires
        app.save is None,
        app.clear_confirmation == ClearConfirmation::Closed,
        app.editing is Some,
        !app.editing->0.too_small,
    ensures
        ({
            let none = crate::keys::no_modifiers();
            let held = crate::keys::KeyModifiers { control: true, ..none };
            let press = KeyEventKind::Press;
            let editing = app.editing->0;
            let draft = editing.editor.draft;
            let allow = app.after_key(
                KeyEvent { code: KeyCode::Char('a'), modifiers: none, kind: press },
                now,
            );
            let deny = app.after_key(
                KeyEvent { code: KeyCode::Char('d'), modifiers: none, kind: press },
                now,
            );
            let left = app.after_key(
                KeyEvent { code: KeyCode::Esc, modifiers: none, kind: press },
                now,
            );
            let up = app.after_key(
                KeyEvent { code: KeyCode::Up, modifiers: held, kind: press },
                now,
            ).0;
            let down = app.after_key(
                KeyEvent { code: KeyCode::Down, modifiers: held, kind: press },
                now,
            ).0;
            let free = editing.available && draft.source_error(editing.request) is None;
            &&& free ==> allow.1.action == Some(
                ActionModel::Remember {
                    approval_id: editing.approval_id,
                    draft: DraftModel { action: RuleAction::Allow, ..draft },
                },
            )
            &&& free ==> deny.1.action == Some(
                ActionModel::Remember {
                    approval_id: editing.approval_id,
                    draft: DraftModel { action: RuleAction::Deny, ..draft },
                },
            )
            &&& !free ==> allow.1.action is None && deny.1.action is None
            &&& left.0 == (AppModel { editing: None, next_poll: now, ..app }) && left.1.action is None
                && !left.1.quit
            &&& up.editing is Some && down.editing is Some
            &&& editing.source_scroll > 0 ==> up.editing->0.source_scroll == editing.source_scroll
                - 1
            &&& editing.source_scroll < 65535 ==> down.editing->0.source_scroll
                == editing.source_scroll + 1
        }),
{
}

/// Why a rule cannot be submitted: first that its request is gone, then that it does not cover it,
/// then what the daemon told.
pub proof fn blocked_rules_say_why(editing: EditingModel)
    ensures
        !editing.available ==> editing.blocked() == Some("Source request is no longer pending"@),
        editing.available ==> (editing.editor.draft.source_error(editing.request) matches Some(error)
            ==> editing.blocked() == Some(error.message())),
        editing.available && editing.editor.draft.source_error(editing.request) is None
            ==> editing.blocked() == editing.error,
{
}

/// A poll asks for the queue, then for the status, then for the selected approval, and then rests
/// for half a second; whatever fails on the way is a disconnect, and the next try a second later.
pub proof fn polls_go_step_by_step(app: AppModel, event: RefreshEvent, now: u128)
    requires
        now + 4000000000 <= u128::MAX,
    ensures
        ({
            let (after, need) = app.refreshed(event, now);
            &&& event is Due ==> after == app && need is List
            &&& event is Listed && event->Listed_0 is None ==> need is Done && !after.connected
                && after.next_poll == now + 1000000000
            &&& event is Listed && event->Listed_0 is Some ==> need is Status && after.connected
                && after.approvals == summary_models((event->Listed_0->0)@)
            &&& event is Informed && event->Informed_0 is None ==> need is Done && !after.connected
            &&& event is Informed && event->Informed_0 is Some ==> after.session_rule_count
                == (event->Informed_0->0).session_rule_count && after.debug_capture
                == (event->Informed_0->0).debug_capture@
            &&& event is Informed && event->Informed_0 is Some && app.editing is Some ==> need
                is Done && after.next_poll == now + 500000000
            &&& event is Informed && event->Informed_0 is Some && app.editing is None ==> match app
                .selected_id() {
                Some(id) => need == NeedModel::Detail(id),
                None => need is Done && after.detail is None && after.next_poll == now
                    + 500000000,
            }
            &&& event is Shown && event->Shown_0 is Failed ==> need is Done && !after.connected
            &&& event is Shown && event->Shown_0 is NotFound ==> need is Done && after.detail
                is None && after.next_poll == now + 500000000
            &&& event is Shown && event->Shown_0 is Shown ==> need is Done && after.next_poll == now
                + 500000000
            &&& event is Shown && event->Shown_0 is Shown && event->Shown_0->Shown_0 is Pending
                ==> after.detail == Some(event->Shown_0->Shown_0->Pending_0@)
            &&& event is Shown && event->Shown_0 is Shown && event->Shown_0->Shown_0 is Completed
                ==> after.detail is None
        }),
{
}

/// The status line keeps what was noted for its time, and afterwards says whether anything waits.
pub proof fn notes_stay_for_their_time(app: AppModel, status: Seq<char>, now: u128, then: u128)
    requires
        now + 4000000000 <= u128::MAX,
    ensures
        app.noted(status, now).status == status,
        app.noted(status, now).status_until == now + 4000000000,
        then < now + 4000000000 ==> app.noted(status, now).settled(then).status == status,
        then >= now + 4000000000 && app.approvals.len() == 0 ==> app.noted(status, now).settled(
            then,
        ).status == "Waiting for approval requests…"@,
        then >= now + 4000000000 && app.approvals.len() > 0 ==> app.noted(status, now).settled(
            then,
        ).status == "a approve · d deny · D reason · r rule · q quit"@,
        then >= now + 4000000000 ==> app.noted(status, now).disconnected(then).status
            == "Disconnected — waiting for daemon…"@,
        then < now + 4000000000 ==> app.noted(status, now).disconnected(then).status == status,
{
}

/// The outcome of a decision names the approval and how it ended, or what went wrong, and the queue
/// is asked for at once.
pub proof fn outcomes_are_noted(
    app: AppModel,
    decision: Result<DecisionResponse, ControlClientError>,
    cleared: Result<usize, ControlClientError>,
    saved: Result<String, String>,
    now: u128,
)
    ensures
        app.decided(decision, now).next_poll == now,
        app.decided(decision, now).approvals == app.approvals,
        decision matches Ok(response) ==> app.decided(decision, now).status
            == response.approval_id@ + (": "@ + (match response.state {
            TerminalState::Granted => "Granted"@,
            TerminalState::Denied => "Denied"@,
            TerminalState::Expired => "Expired"@,
            TerminalState::Cancelled => "Cancelled"@,
        })),
        decision matches Err(error) ==> app.decided(decision, now).status == "Decision failed: "@
            + error@.message(),
        app.cleared(cleared, now).clear_confirmation == ClearConfirmation::Closed,
        app.cleared(cleared, now).next_poll == now,
        cleared matches Ok(count) ==> app.cleared(cleared, now).session_rule_count == 0
            && app.cleared(cleared, now).status == "Cleared "@ + (decimal(count as nat)
            + " session rule(s)."@),
        cleared matches Err(error) ==> app.cleared(cleared, now).session_rule_count
            == app.session_rule_count && app.cleared(cleared, now).status
            == "Clear session rules failed: "@ + error@.message(),
        saved matches Ok(path) ==> app.saved(saved, now).status == "Saved session rules to "@
            + path@,
        saved matches Err(error) ==> app.saved(saved, now).status == "Save rules failed: "@
            + error@,
{
}

/// A rule is opened for the approval and the request that were asked for, with the action and scope
/// of the key, at the request's own path; for anything but a pending capability it is refused and
/// nothing is opened.
pub proof fn rules_are_opened_for_their_request(
    app: AppModel,
    id: Seq<char>,
    action: RuleAction,
    scope: RuleScope,
    outcome: Result<ApprovalView, ControlClientError>,
    now: u128,
)
    ensures
        ({
            let after = app.opened(id, action, scope, outcome, now);
            &&& after.next_poll == now
            &&& after.approvals == app.approvals
            &&& outcome is Err ==> after.editing == app.editing && after.status
                == "Rule draft failed: "@ + (outcome->Err_0)@.message()
            &&& outcome is Ok && outcome->Ok_0 is Completed ==> after.editing == app.editing
                && after.status == "Source request is no longer pending"@
            &&& outcome is Ok && outcome->Ok_0 is Pending ==> {
                let detail = (outcome->Ok_0->Pending_0)@;
                &&& detail.debug is None ==> after.editing == app.editing && after.status
                    == "Rule draft failed: source path is unavailable"@
                &&& detail.debug is Some && draft_from(
                    detail.debug->0.wire_request,
                    action,
                    scope,
                ) is Err ==> after.editing == app.editing
                &&& detail.debug is Some && draft_from(
                    detail.debug->0.wire_request,
                    action,
                    scope,
                ) is Ok ==> {
                    let request = detail.debug->0.wire_request;
                    &&& after.editing is Some
                    &&& after.editing->0.approval_id == id
                    &&& after.editing->0.request == request
                    &&& after.editing->0.deadline == detail.deadline
                    &&& after.editing->0.available && !after.editing->0.too_small
                    &&& after.editing->0.error is None && after.editing->0.source_scroll == 0
                    &&& after.editing->0.editor.selected == 0
                    &&& after.editing->0.editor.draft.action == action
                    &&& after.editing->0.editor.draft.scope == scope
                    &&& after.editing->0.editor.source_scope == scope
                    &&& request is Capability
                    &&& after.editing->0.editor.draft.access == request->Capability_access
                    &&& after.editing->0.editor.paths == ancestors_of(request->Capability_path)
                    &&& after.editing->0.editor.draft.path == ancestors_of(
                        request->Capability_path,
                    )[0]
                }
            }
        }),
{
    if outcome is Ok && outcome->Ok_0 is Pending && (outcome->Ok_0->Pending_0)@.debug is Some {
        let request = (outcome->Ok_0->Pending_0)@.debug->0.wire_request;
        if request is Capability {
            let parts = crate::policy::path_parts(request->Capability_path);
            assert(parts.take(parts.len() as int) =~= parts);
        }
    }
}

/// A rule that was remembered closes the choice and says for which approval; one that was not keeps
/// the choice open and says why.
pub proof fn remembered_rules_close_the_choice(
    app: AppModel,
    draft: DraftModel,
    outcome: Result<DecisionResponse, ControlClientError>,
    now: u128,
)
    requires
        app.editing is Some,
    ensures
        ({
            let after = app.remembered(draft, outcome, now);
            &&& after.next_poll == now
            &&& outcome is Ok <==> after.editing is None
            &&& outcome is Ok ==> after.status == app.editing->0.approval_id + (": "@ + ((if draft
                .action is Allow {
                "Allow"@
            } else {
                "Deny"@
            }) + (" "@ + ((if draft.scope is Path {
                "Path"@
            } else {
                "Directory"@
            }) + " rule remembered"@))))
            &&& outcome matches Err(error) ==> after.status == app.status && after.editing
                == Some(
                EditingModel {
                    error: Some("Session rule failed: "@ + error@.message()),
                    ..app.editing->0
                },
            )
        }),
{
}

/// The states of approvals and the actions of rules have words of their own.
pub proof fn words_tell_values_apart(state: TerminalState, action: RuleAction)
    ensures
        state is Granted ==> state.word() == "Granted"@,
        state is Denied ==> state.word() == "Denied"@,
        state is Expired ==> state.word() == "Expired"@,
        state is Cancelled ==> state.word() == "Cancelled"@,
        action is Allow ==> action.word() == "Allow"@,
        action is Deny ==> action.word() == "Deny"@,
{
}

/// What a key comes to is seen as what its fields hold.
pub proof fn outcomes_are_seen_field_by_field(action: Action, outcome: KeyOutcome)
    ensures
        action matches Action::Decide { approval_id, decision } ==> action@ == (
        ActionModel::Decide { approval_id: approval_id@, decision: decision@ }),
        action is ClearSessionRules <==> action@ is ClearSessionRules,
        action matches Action::SaveSessionRules { value } ==> action@ == (
        ActionModel::SaveSessionRules { value: value@ }),
        action matches Action::OpenRuleEditor { approval_id, action: rule, scope } ==> action@ == (
        ActionModel::OpenRuleEditor { approval_id: approval_id@, action: rule, scope }),
        action matches Action::Remember { approval_id, draft } ==> action@ == (
        ActionModel::Remember { approval_id: approval_id@, draft: draft@ }),
        outcome@.quit == outcome.quit,
        outcome@.action is Some <==> outcome.action is Some,
        outcome.action matches Some(done) ==> outcome@.action == Some(done@),
{
}

/// The state of the client is seen as what its fields hold.
pub proof fn the_client_is_seen_field_by_field(
    app: App,
    reason: ReasonInput,
    save: SaveInput,
    editing: ApprovalRuleEditing,
)
    ensures
        app@.connected == app.connected,
        app@.approvals == summary_models(app.approvals@),
        app@.selected == app.selected,
        app@.detail is Some <==> app.detail is Some,
        app.detail matches Some(detail) ==> app@.detail == Some(detail@),
        app@.detail_scroll == app.detail_scroll,
        app@.show_detail_panel == app.show_detail_panel,
        app@.reason is Some <==> app.reason is Some,
        app.reason matches Some(typed) ==> app@.reason == Some(typed@),
        app@.save is Some <==> app.save is Some,
        app.save matches Some(typed) ==> app@.save == Some(typed@),
        app@.editing is Some <==> app.editing is Some,
        app.editing matches Some(edited) ==> app@.editing == Some(edited@),
        app@.clear_confirmation == app.clear_confirmation,
        app@.status == app.status@,
        app@.debug_capture == app.debug_capture@,
        app@.session_rule_count == app.session_rule_count,
        app@.status_until == app.status_until,
        app@.next_poll == app.next_poll,
        reason@.approval_id == reason.approval_id@,
        reason@.value == reason.value@,
        reason@.error == text_option(reason.error),
        save@.value == save.value@,
        save@.error == text_option(save.error),
        editing@.approval_id == editing.approval_id@,
        editing@.request == editing.request@,
        editing@.deadline == editing.deadline@,
        editing@.available == editing.available,
        editing@.source_scroll == editing.source_scroll,
        editing@.editor == editing.editor@,
        editing@.error == text_option(editing.error),
        editing@.too_small == editing.too_small,
{
}

/// With nothing selected before, a new queue selects its first approval.
pub proof fn new_queues_select_their_first_approval(app: AppModel, approvals: Seq<SummaryModel>)
    requires
        app.editing is None,
        app.selected_id() is None,
        approvals.len() > 0,
    ensures
        app.listed(approvals).selected == Some(0usize),
        app.listed(approvals).connected,
        app.listed(approvals).approvals == approvals,
{
}

/// A rule that is being chosen stays open to be submitted exactly while its request is in the
/// queue.
pub proof fn choices_stay_open_while_their_request_waits(
    app: AppModel,
    approvals: Seq<SummaryModel>,
)
    requires
        app.editing is Some,
        approvals.len() <= usize::MAX,
    ensures
        app.listed(approvals).editing->0.available <==> app.editing->0.available && exists|i: int|
            0 <= i < approvals.len() && (#[trigger] approvals[i]).approval_id
                == app.editing->0.approval_id,
{
    lemma_id_position(approvals, app.editing->0.approval_id);
}

/// On a screen that is too small for a choice, only escape and control with `c` do anything; what
/// the daemon told of a choice is forgotten once the choice changes.
pub proof fn small_screens_take_no_choices(app: AppModel, key: KeyEvent, now: u128)
    requires
        app.save is None,
        app.clear_confirmation == ClearConfirmation::Closed,
        app.editing is Some,
    ensures
        app.editing->0.too_small && key.code != KeyCode::Esc ==> app.after_key(key, now).0 == app
            && app.after_key(key, now).1.action is None,
        key.code == KeyCode::Char('c') && key.modifiers.is_control_spec() ==> app.after_key(
            key,
            now,
        ) == (app, OutcomeModel { quit: true, action: None }),
        app.after_key(key, now).0.editing matches Some(after) ==> (after.editor.draft
            != app.editing->0.editor.draft ==> after.error is None),
{
}

/// The body of a decision to remember says what the draft says, and gives no reason.
pub proof fn submitted_rules_say_what_the_draft_says(draft: &RuleDraft, request: SessionRuleRequest)
    requires
        call_ensures(session_rule_request, (draft,), request),
    ensures
        request.action == draft.action,
        request.scope == draft.scope,
        request.reason is None,
        request.path is Some && (request.path->0)@ == draft.path@,
{
}

/// A new client knows nothing yet, has nothing open, and polls at once.
pub proof fn new_clients_know_nothing(socket_path: &str, now: u128, app: App)
    requires
        call_ensures(App::new, (socket_path, now), app),
    ensures
        app@.client == socket_path@,
        !app@.connected,
        app@.approvals.len() == 0,
        app@.selected_id() is None,
        app@.detail is None,
        browses(app@),
        app@.next_poll == now,
        app@.session_rule_count == 0,
        app@.debug_capture is Disabled,
        app@.status == "Disconnected — waiting for daemon…"@,
{
}

/// While the queue is browsed a key changes at most one thing: the selection, the scrolling, the
/// panel, or what is open.
pub proof fn browsing_changes_one_thing(app: AppModel, key: KeyEvent, now: u128)
    requires
        browses(app),
    ensures
        ({
            let after = app.after_key(key, now).0;
            ||| after == app
            ||| after == (AppModel {
                selected: after.selected,
                detail_scroll: 0,
                next_poll: now,
                ..app
            })
            ||| after == (AppModel { detail_scroll: after.detail_scroll, ..app })
            ||| after == (AppModel { show_detail_panel: after.show_detail_panel, ..app })
            ||| after == (AppModel { clear_confirmation: after.clear_confirmation, ..app })
            ||| after == (AppModel { save: after.save, ..app })
            ||| after == (AppModel { reason: after.reason, ..app })
        }),
{
}

/// What the daemon answers changes what it is about and leaves the rest: the queue, what is typed,
/// and what is shown.
pub proof fn answers_leave_the_rest_alone(
    app: AppModel,
    approvals: Seq<SummaryModel>,
    status: StatusModel,
    note: Seq<char>,
    now: u128,
)
    ensures
        app.listed(approvals) == (AppModel {
            connected: true,
            approvals,
            selected: app.listed(approvals).selected,
            editing: app.listed(approvals).editing,
            ..app
        }),
        app.informed(status) == (AppModel {
            debug_capture: app.informed(status).debug_capture,
            session_rule_count: app.informed(status).session_rule_count,
            ..app
        }),
        app.noted(note, now) == (AppModel {
            status: note,
            status_until: app.noted(note, now).status_until,
            ..app
        }),
        app.settled(now) == (AppModel {
            status: app.settled(now).status,
            next_poll: app.settled(now).next_poll,
            ..app
        }),
        app.disconnected(now).save == app.save,
        app.disconnected(now).client == app.client,
        app.disconnected(now).show_detail_panel == app.show_detail_panel,
        app.disconnected(now).status_until == app.status_until,
{
}

/// The outcome of an action leaves everything but its own traces as it was.
pub proof fn outcomes_leave_the_rest_alone(
    app: AppModel,
    id: Seq<char>,
    action: RuleAction,
    scope: RuleScope,
    draft: DraftModel,
    decision: Result<DecisionResponse, ControlClientError>,
    cleared: Result<usize, ControlClientError>,
    opened: Result<ApprovalView, ControlClientError>,
    now: u128,
)
    ensures
        ({
            let after = app.decided(decision, now);
            after == (AppModel {
                status: after.status,
                status_until: after.status_until,
                next_poll: now,
                ..app
            })
        }),
        ({
            let after = app.cleared(cleared, now);
            after == (AppModel {
                clear_confirmation: ClearConfirmation::Closed,
                session_rule_count: after.session_rule_count,
                status: after.status,
                status_until: after.status_until,
                next_poll: now,
                ..app
            })
        }),
        ({
            let after = app.opened(id, action, scope, opened, now);
            after == (AppModel {
                editing: after.editing,
                status: after.status,
                status_until: after.status_until,
                next_poll: now,
                ..app
            })
        }),
        ({
            let after = app.remembered(draft, decision, now);
            after == (AppModel {
                editing: after.editing,
                status: after.status,
                status_until: after.status_until,
                next_poll: after.next_poll,
                ..app
            })
        }),
        app.editing is None ==> app.remembered(draft, decision, now) == app,
{
}

} // verus!
