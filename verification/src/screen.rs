//! What the interactive client shows, and how it divides the terminal.
use vstd::prelude::*;
use vstd::string::StringExecFns;

use crate::broker::{ApprovalDetail, ApprovalDetailModel, SummaryModel};
use crate::clock::{instant_of, parse_instant, SECOND};
use crate::control::DebugCaptureStatus;
use crate::debug_capture::CaptureStatusModel;
use crate::display::{
    line_columns, line_width, sanitize, sanitized, truncate_summary, truncated, wrap_text, wrapped,
    FieldModel,
};
use crate::interactive::{App, AppModel, ApprovalRuleEditing, ClearConfirmation, EditingModel};
use crate::policy::RuleDraft;
use crate::protocol::{KnownApprovalRequest, RequestModel};
use crate::rule_selector::{at_least_one, display_path, visible_path};
use crate::runtime_path::{below, join_path};
use crate::text::{
    begins_with, chars, decimal, decimal_text, ends_with, pieces, same, split, strip_prefix,
    strip_suffix, texts, with_detail,
};

verus! {

// ---------------------------------------------------------------------------
// The lease
// ---------------------------------------------------------------------------

/// A number of seconds as minutes and seconds.
pub open spec fn countdown(seconds: nat) -> Seq<char> {
    let rest = decimal(seconds % 60);
    decimal(seconds / 60) + ("m "@ + ((if seconds % 60 < 10 {
        "0"@
    } else {
        ""@
    }) + (rest + "s"@)))
}

/// The whole seconds from a wall-clock time until a deadline; none once it has passed.
pub open spec fn seconds_left(deadline: i128, now: u128) -> nat {
    if deadline <= now {
        0
    } else {
        ((deadline - now) / (SECOND as int)) as nat
    }
}

/// What is told of the time that is left until a deadline.
pub open spec fn lease_text(deadline: Seq<char>, now: u128) -> Seq<char> {
    match instant_of(deadline) {
        Some(instant) => countdown(seconds_left(instant, now)),
        None => "unknown"@,
    }
}

/// Writes a number of seconds as minutes and seconds.
pub fn countdown_text(seconds: u64) -> (result: String)
    ensures
        result@ == countdown(seconds as nat),
{
    let mut result = decimal_text(seconds / 60);
    result.append("m ");
    if seconds % 60 < 10 {
        result.append("0");
    }
    result.append(decimal_text(seconds % 60).as_str());
    result.append("s");
    proof {
        reveal_strlit("");
        let rest = decimal(seconds as nat % 60);
        assert(""@ + (rest + "s"@) =~= rest + "s"@);
        assert(result@ =~= countdown(seconds as nat));
    }
    result
}

/// Writes the time that is left until a deadline.
pub fn lease_remaining(deadline: &str, now: u128) -> (result: String)
    ensures
        result@ == lease_text(deadline@, now),
{
    match parse_instant(deadline) {
        None => "unknown".to_owned(),
        Some(instant) => {
            if instant < 0 || instant as u128 <= now {
                return countdown_text(0);
            }
            let seconds: u128 = (instant as u128 - now) / SECOND;
            countdown_text(seconds as u64)
        },
    }
}

// ---------------------------------------------------------------------------
// The footer
// ---------------------------------------------------------------------------

/// What the footer tells of debug capture.
pub open spec fn capture_text(capture: CaptureStatusModel) -> Seq<char> {
    match capture {
        CaptureStatusModel::Failed { .. } => " · debug capture: failed"@,
        CaptureStatusModel::Enabled { .. } => " · debug capture: enabled"@,
        CaptureStatusModel::Disabled => ""@,
    }
}

/// What the footer tells of debug capture.
pub fn capture_indicator(capture: &DebugCaptureStatus) -> (result: &'static str)
    ensures
        result@ == capture_text(capture@),
{
    match capture {
        DebugCaptureStatus::Failed { .. } => " · debug capture: failed",
        DebugCaptureStatus::Enabled { .. } => " · debug capture: enabled",
        DebugCaptureStatus::Disabled => "",
    }
}

/// An error behind what is typed.
pub open spec fn trailing_error(error: Option<Seq<char>>) -> Seq<char> {
    match error {
        Some(text) => " · "@ + text,
        None => ""@,
    }
}

/// Writes an error behind what is typed.
fn error_suffix(error: &Option<String>) -> (result: String)
    ensures
        result@ == trailing_error(
            match *error {
                Some(text) => Some(text@),
                None => None,
            },
        ),
{
    match error {
        Some(text) => with_detail(" · ", text.as_str()),
        None => "".to_owned(),
    }
}

impl AppModel {
    /// The message in the footer.
    pub open spec fn footer(self) -> Seq<char> {
        match self.save {
            Some(save) => "Save rules to file: "@ + (sanitized(save.value) + (trailing_error(
                save.error,
            ) + " | Enter save · Esc cancel"@)),
            None => if self.clear_confirmation != ClearConfirmation::Closed {
                "Clear ALL "@ + (decimal(self.session_rule_count as nat)
                    + " allow/deny rules in this daemon (all clients)? Pending requests unchanged. y confirm | n/Esc cancel | Ctrl-C quit"@)
            } else {
                match self.reason {
                    Some(reason) => "Deny reason: "@ + (sanitized(reason.value) + trailing_error(
                        reason.error,
                    )),
                    None => (if self.connected {
                        "C clear rules | "@
                    } else {
                        ""@
                    }) + (sanitized(self.status) + (" · session rules: "@ + (decimal(
                        self.session_rule_count as nat,
                    ) + capture_text(self.debug_capture)))),
                }
            },
        }
    }

    /// What the footer shows: the message, unless it is a question that cannot be read.
    pub open spec fn shown_footer(self) -> Seq<char> {
        if self.clear_confirmation == ClearConfirmation::Hidden {
            "Resize to confirm. n/Esc cancel | Ctrl-C quit"@
        } else {
            self.footer()
        }
    }
}

/// Writes the message in the footer.
pub fn footer_message(app: &App) -> (result: String)
    ensures
        result@ == app@.footer(),
{
    if let Some(save) = &app.save {
        let rest = with_detail(error_suffix(&save.error).as_str(), " | Enter save · Esc cancel");
        let rest = with_detail(sanitize(save.value.as_str()).as_str(), rest.as_str());
        return with_detail("Save rules to file: ", rest.as_str());
    }
    if app.clear_confirmation != ClearConfirmation::Closed {
        let rest = with_detail(
            decimal_text(app.session_rule_count as u64).as_str(),
            " allow/deny rules in this daemon (all clients)? Pending requests unchanged. y confirm | n/Esc cancel | Ctrl-C quit",
        );
        return with_detail("Clear ALL ", rest.as_str());
    }
    if let Some(reason) = &app.reason {
        let rest = with_detail(
            sanitize(reason.value.as_str()).as_str(),
            error_suffix(&reason.error).as_str(),
        );
        return with_detail("Deny reason: ", rest.as_str());
    }
    let rest = with_detail(
        decimal_text(app.session_rule_count as u64).as_str(),
        capture_indicator(&app.debug_capture),
    );
    let rest = with_detail(" · session rules: ", rest.as_str());
    let rest = with_detail(sanitize(app.status.as_str()).as_str(), rest.as_str());
    let hint = if app.connected {
        "C clear rules | "
    } else {
        ""
    };
    with_detail(hint, rest.as_str())
}

/// Writes what the footer shows.
pub fn footer_text(app: &App) -> (result: String)
    ensures
        result@ == app@.shown_footer(),
{
    if app.clear_confirmation == ClearConfirmation::Hidden {
        return "Resize to confirm. n/Esc cancel | Ctrl-C quit".to_owned();
    }
    footer_message(app)
}

// ---------------------------------------------------------------------------
// The browse screen
// ---------------------------------------------------------------------------

/// The title of the detail.
pub const DETAIL_TITLE: &'static str = " Decision detail ";

/// The title of the request that a rule is about.
pub const SOURCE_TITLE: &'static str = " Source request ";

/// The title of the dialog that asks where to save.
pub const SAVE_TITLE: &'static str = " Save session rules ";

/// What is shown in place of the choice of a rule on a screen that is too small for it.
pub const TOO_SMALL_MESSAGE: &'static str =
    "Terminal too small: need 40x22\nEsc back | Ctrl-C quit";

/// The columns of the left of two panes: 38 percent, rounded.
pub open spec fn left_columns(width: u16) -> nat {
    (38 * width as nat + 50) / 100
}

/// The width of the left of two panes; the right one takes the rest.
pub fn left_width(width: u16) -> (result: u16)
    ensures
        result == left_columns(width),
        result <= width,
{
    ((38 * width as u32 + 50) / 100) as u16
}

/// What the main part of the screen shows.
#[derive(Clone, Copy, Debug, PartialEq, Eq, Structural)]
pub enum Panes {
    Both,
    Detail,
    Queue,
}

/// How the screen is divided.
#[derive(Clone, Copy, Debug, PartialEq, Eq, Structural)]
pub struct Division {
    pub footer_height: u16,
    pub panes: Panes,
}

/// The rows of a footer: as many as its message takes, from two up to a limit.
pub open spec fn footer_rows(lines: nat, most: u16) -> u16 {
    if lines < 2 {
        2
    } else if lines > most {
        most
    } else {
        lines as u16
    }
}

/// The height of the footer, which leaves at least three rows to the rest.
pub open spec fn footer_height(lines: nat, height: u16) -> u16 {
    let rows = footer_rows(lines, 6);
    let room = if height < 3 {
        0
    } else {
        (height - 3) as u16
    };
    if rows < room {
        rows
    } else {
        room
    }
}

/// The lines of a message on a screen.
pub open spec fn message_lines(message: Seq<char>, width: u16) -> nat {
    wrapped(message, at_least_one(width)).len()
}

impl AppModel {
    /// How the screen is divided.
    pub open spec fn division(self, width: u16, height: u16) -> Division {
        Division {
            footer_height: footer_height(message_lines(self.footer(), width), height),
            panes: if width >= 90 {
                Panes::Both
            } else if self.show_detail_panel {
                Panes::Detail
            } else {
                Panes::Queue
            },
        }
    }

    /// The state once the screen is drawn: a question counts as asked only where all of it is shown.
    pub open spec fn drawn(self, width: u16, height: u16) -> AppModel {
        AppModel {
            clear_confirmation: if self.clear_confirmation == ClearConfirmation::Closed {
                ClearConfirmation::Closed
            } else if message_lines(self.footer(), width) <= self.division(
                width,
                height,
            ).footer_height {
                ClearConfirmation::Visible
            } else {
                ClearConfirmation::Hidden
            },
            ..self
        }
    }
}

/// Counts the rows of a footer.
fn clamp_rows(lines: usize, most: u16) -> (result: u16)
    requires
        most >= 2,
    ensures
        result == footer_rows(lines as nat, most),
{
    if lines < 2 {
        2
    } else if lines > most as usize {
        most
    } else {
        lines as u16
    }
}

/// Counts the lines of a message on a screen.
fn count_lines(message: &str, width: u16) -> (result: usize)
    ensures
        result == message_lines(message@, width),
{
    let columns: usize = if width == 0 {
        1
    } else {
        width as usize
    };
    let lines = wrap_text(message, columns);
    assert(texts(lines@).len() == lines@.len());
    lines.len()
}

/// Divides the screen, and notes whether a question can be read on it.
pub fn render(app: &mut App, width: u16, height: u16) -> (result: Division)
    requires
        old(app)@.well_formed(),
    ensures
        result == old(app)@.division(width, height),
        final(app)@ == old(app)@.drawn(width, height),
        final(app)@.well_formed(),
{
    let message = footer_message(app);
    let lines = count_lines(message.as_str(), width);
    let rows = clamp_rows(lines, 6);
    let room: u16 = height.saturating_sub(3);
    let footer_height: u16 = if rows < room {
        rows
    } else {
        room
    };
    if app.clear_confirmation != ClearConfirmation::Closed {
        app.clear_confirmation = if lines <= footer_height as usize {
            ClearConfirmation::Visible
        } else {
            ClearConfirmation::Hidden
        };
    }
    let panes = if width >= 90 {
        Panes::Both
    } else if app.show_detail_panel {
        Panes::Detail
    } else {
        Panes::Queue
    };
    Division { footer_height, panes }
}

/// The title of the queue.
pub fn queue_title(connected: bool) -> (result: &'static str)
    ensures
        result@ == (if connected {
            " Pending approvals "@
        } else {
            " Disconnected — waiting for daemon… "@
        }),
{
    if connected {
        " Pending approvals "
    } else {
        " Disconnected — waiting for daemon… "
    }
}

/// The second line of an approval in the queue: its kind, and as much of its summary as fits between
/// the borders.
pub open spec fn queue_text(approval: SummaryModel, width: u16) -> Seq<char> {
    let prefix = approval.capability_type + " · "@;
    let taken = line_columns(prefix) + 2;
    prefix + truncated(
        approval.summary,
        if taken <= width {
            (width - taken) as nat
        } else {
            0
        },
    )
}

/// Writes the second line of every approval in the queue.
pub fn render_queue(app: &App, width: u16) -> (result: Vec<String>)
    ensures
        texts(result@) == app@.approvals.map_values(|a: SummaryModel| queue_text(a, width)),
{
    let mut result: Vec<String> = Vec::new();
    for i in 0..app.approvals.len()
        invariant
            result@.len() == i,
            forall|j: int|
                0 <= j < i ==> (#[trigger] result@[j])@ == queue_text(app@.approvals[j], width),
    {
        let approval = &app.approvals[i];
        assert(app@.approvals[i as int] == approval@);
        let prefix = with_detail(approval.capability_type.as_str(), " · ");
        let available: usize = (width.saturating_sub(2)) as usize;
        let room: usize = available.saturating_sub(line_width(prefix.as_str()));
        let summary = truncate_summary(approval.summary.as_str(), room);
        result.push(with_detail(prefix.as_str(), summary.as_str()));
    }
    assert(texts(result@) =~= app@.approvals.map_values(|a: SummaryModel| queue_text(a, width)));
    result
}

/// A line of the detail: a part that stands out, and the rest.
#[derive(Debug)]
pub struct DetailLine {
    pub label: String,
    pub text: String,
}

/// The contents of a list of detail lines.
pub open spec fn detail_line_models(lines: Seq<DetailLine>) -> Seq<(Seq<char>, Seq<char>)> {
    Seq::new(lines.len(), |i: int| (lines[i].label@, lines[i].text@))
}

/// The lines that show the fields of an approval.
pub open spec fn field_lines(fields: Seq<FieldModel>) -> Seq<(Seq<char>, Seq<char>)> {
    fields.map_values(|field: FieldModel| (field.label + ": "@, field.value))
}

/// The lines of the detail.
pub open spec fn detail_lines(detail: Option<ApprovalDetailModel>, now: u128) -> Seq<
    (Seq<char>, Seq<char>),
> {
    match detail {
        None => seq![(""@, "No pending approval selected."@)],
        Some(detail) => seq![(detail.approval_id, ""@)] + field_lines(detail.content.fields) + seq![
            (""@, "Deadline: "@ + detail.deadline),
            (""@, "Lease remaining: "@ + lease_text(detail.deadline, now)),
        ],
    }
}

/// Writes the lines of a detail.
fn write_detail(detail: &ApprovalDetail, now: u128) -> (result: Vec<DetailLine>)
    ensures
        detail_line_models(result@) == detail_lines(Some(detail@), now),
{
    let mut lines: Vec<DetailLine> = Vec::new();
    lines.push(
        DetailLine { label: detail.approval_id.as_str().to_owned(), text: "".to_owned() },
    );
    let ghost head = seq![(detail@.approval_id, ""@)];
    let ghost middle = field_lines(detail@.content.fields);
    assert(detail_line_models(lines@) =~= head + middle.take(0));
    for i in 0..detail.content.fields.len()
        invariant
            head.len() == 1,
            middle == field_lines(detail@.content.fields),
            detail_line_models(lines@) == head + middle.take(i as int),
    {
        let field = &detail.content.fields[i];
        let ghost before = lines@;
        assert(detail@.content.fields[i as int] == field@);
        lines.push(
            DetailLine {
                label: with_detail(field.label.as_str(), ": "),
                text: field.value.clone(),
            },
        );
        assert(detail_line_models(lines@) =~= detail_line_models(before).push(middle[i as int]));
        assert(middle.take(i + 1) =~= middle.take(i as int).push(middle[i as int]));
        assert(detail_line_models(lines@) =~= head + middle.take(i + 1));
    }
    assert(middle.take(detail.content.fields@.len() as int) =~= middle);
    lines.push(
        DetailLine {
            label: "".to_owned(),
            text: with_detail("Deadline: ", detail.deadline.as_str()),
        },
    );
    lines.push(
        DetailLine {
            label: "".to_owned(),
            text: with_detail(
                "Lease remaining: ",
                lease_remaining(detail.deadline.as_str(), now).as_str(),
            ),
        },
    );
    assert(detail_line_models(lines@) =~= detail_lines(Some(detail@), now));
    lines
}

/// Writes the lines of the detail.
pub fn render_detail(app: &App, now: u128) -> (result: Vec<DetailLine>)
    ensures
        detail_line_models(result@) == detail_lines(app@.detail, now),
{
    match &app.detail {
        Some(detail) => write_detail(detail, now),
        None => {
            let mut lines: Vec<DetailLine> = Vec::new();
            lines.push(
                DetailLine {
                    label: "".to_owned(),
                    text: "No pending approval selected.".to_owned(),
                },
            );
            assert(detail_line_models(lines@) =~= detail_lines(None, now));
            lines
        },
    }
}

// ---------------------------------------------------------------------------
// The rule screen
// ---------------------------------------------------------------------------

/// How the screen is divided while a rule is chosen.
#[derive(Debug)]
pub struct EditingDivision {
    pub footer: String,
    pub footer_height: u16,
    pub side_by_side: bool,
    pub source_height: u16,
}

/// The contents of an [`EditingDivision`].
pub struct EditingDivisionModel {
    pub footer: Seq<char>,
    pub footer_height: u16,
    pub side_by_side: bool,
    pub source_height: u16,
}

impl View for EditingDivision {
    type V = EditingDivisionModel;

    open spec fn view(&self) -> EditingDivisionModel {
        EditingDivisionModel {
            footer: self.footer@,
            footer_height: self.footer_height,
            side_by_side: self.side_by_side,
            source_height: self.source_height,
        }
    }
}

/// The footer while a rule is chosen.
pub open spec fn editing_footer(
    deadline: Seq<char>,
    rule_count: usize,
    capture: CaptureStatusModel,
    now: u128,
) -> Seq<char> {
    "Lifetime: daemon run | session rules: "@ + (decimal(rule_count as nat) + (" | Lease: "@ + (
    lease_text(deadline, now) + (capture_text(capture)
        + " | Ctrl-Up/Down source | Ctrl-C quit"@))))
}

/// Whether a screen is too small to choose a rule on.
pub open spec fn too_small(width: u16, height: u16) -> bool {
    width < 40 || height < 22
}

/// The rows for the request above the choice: a quarter, from three to six.
pub open spec fn source_rows(main_height: u16) -> u16 {
    if main_height / 4 < 3 {
        3
    } else if main_height / 4 > 6 {
        6
    } else {
        main_height / 4
    }
}

impl EditingModel {
    /// How the screen is divided, if it is large enough.
    pub open spec fn division(
        self,
        rule_count: usize,
        capture: CaptureStatusModel,
        width: u16,
        height: u16,
        now: u128,
    ) -> Option<EditingDivisionModel> {
        if too_small(width, height) {
            None
        } else {
            let footer = editing_footer(self.deadline, rule_count, capture, now);
            let footer_height = footer_rows(message_lines(footer, width), 4);
            Some(
                EditingDivisionModel {
                    footer,
                    footer_height,
                    side_by_side: width >= 90,
                    source_height: source_rows((height - footer_height) as u16),
                },
            )
        }
    }
}

/// Divides the screen while a rule is chosen, and notes whether it is too small for that.
pub fn render_rule_editing(
    editing: &mut ApprovalRuleEditing,
    rule_count: usize,
    capture: &DebugCaptureStatus,
    width: u16,
    height: u16,
    now: u128,
) -> (result: Option<EditingDivision>)
    ensures
        final(editing)@ == (EditingModel { too_small: too_small(width, height), ..old(editing)@ }),
        match old(editing)@.division(rule_count, capture@, width, height, now) {
            Some(expected) => result matches Some(division) && division@ == expected,
            None => result is None,
        },
{
    editing.too_small = width < 40 || height < 22;
    if editing.too_small {
        return None;
    }
    let rest = with_detail(capture_indicator(capture), " | Ctrl-Up/Down source | Ctrl-C quit");
    let rest = with_detail(
        lease_remaining(editing.deadline.as_str(), now).as_str(),
        rest.as_str(),
    );
    let rest = with_detail(" | Lease: ", rest.as_str());
    let rest = with_detail(decimal_text(rule_count as u64).as_str(), rest.as_str());
    let footer = with_detail("Lifetime: daemon run | session rules: ", rest.as_str());
    let footer_height = clamp_rows(count_lines(footer.as_str(), width), 4);
    let quarter: u16 = (height - footer_height) / 4;
    let source_height: u16 = if quarter < 3 {
        3
    } else if quarter > 6 {
        6
    } else {
        quarter
    };
    Some(EditingDivision { footer, footer_height, side_by_side: width >= 90, source_height })
}

/// What is shown of the request that a rule is about.
pub open spec fn source_lines(editing: EditingModel) -> Seq<Seq<char>> {
    seq![editing.approval_id] + (match editing.request {
        RequestModel::Capability { path, access, reason, .. } => seq![
            "Access: "@ + access.name(),
            visible_path(path),
        ] + (match reason {
            Some(text) => seq!["Reason: "@ + sanitized(text)],
            None => Seq::empty(),
        }),
        _ => Seq::empty(),
    })
}

/// Writes what is shown of the request that a rule is about.
pub fn render_source(editing: &ApprovalRuleEditing) -> (result: Vec<String>)
    ensures
        texts(result@) == source_lines(editing@),
{
    let mut lines: Vec<String> = Vec::new();
    lines.push(editing.approval_id.as_str().to_owned());
    if let KnownApprovalRequest::Capability { path, access, reason, .. } = &editing.request {
        lines.push(with_detail("Access: ", access.as_str()));
        lines.push(display_path(path.as_str()));
        if let Some(reason) = reason {
            lines.push(with_detail("Reason: ", sanitize(reason.as_str()).as_str()));
        }
    }
    assert(texts(lines@) =~= source_lines(editing@));
    lines
}

// ---------------------------------------------------------------------------
// Saving
// ---------------------------------------------------------------------------

/// A part of the screen.
#[derive(Clone, Copy, Debug, PartialEq, Eq, Structural)]
pub struct Area {
    pub x: u16,
    pub y: u16,
    pub width: u16,
    pub height: u16,
}

/// The smaller of a length and what is left of another without a border.
pub open spec fn within_border(length: u16, of: u16) -> u16 {
    let room = if of < 2 {
        0
    } else {
        (of - 2) as u16
    };
    if length < room {
        length
    } else {
        room
    }
}

/// A part in the middle of the screen, within its border.
pub open spec fn centered(width: u16, height: u16, area: Area) -> Area {
    let w = within_border(width, area.width);
    let h = within_border(height, area.height);
    Area {
        x: (area.x + (area.width - w) / 2) as u16,
        y: (area.y + (area.height - h) / 2) as u16,
        width: w,
        height: h,
    }
}

/// Finds a part in the middle of the screen.
pub fn centered_rect(width: u16, height: u16, area: Area) -> (result: Area)
    requires
        area.x + area.width <= u16::MAX,
        area.y + area.height <= u16::MAX,
    ensures
        result == centered(width, height, area),
        result.x + result.width <= area.x + area.width,
        result.y + result.height <= area.y + area.height,
{
    let room: u16 = area.width.saturating_sub(2);
    let w: u16 = if width < room {
        width
    } else {
        room
    };
    let room: u16 = area.height.saturating_sub(2);
    let h: u16 = if height < room {
        height
    } else {
        room
    };
    Area {
        x: area.x + (area.width - w) / 2,
        y: area.y + (area.height - h) / 2,
        width: w,
        height: h,
    }
}

/// The dialog that asks for a file name.
#[derive(Debug)]
pub struct SaveDialog {
    pub area: Area,
    pub input: String,
    pub message: String,
    pub cursor_x: u16,
    pub cursor_y: u16,
}

/// The column of the cursor behind what is typed, within the dialog.
pub open spec fn cursor_column(area: Area, typed: nat) -> u16 {
    let wanted = area.x + 1 + 19 + typed;
    let most = if area.x + area.width == 0 {
        0
    } else {
        area.x + area.width - 1
    };
    if wanted < most {
        wanted as u16
    } else {
        most as u16
    }
}

/// The dialog that asks for a file name, while one is typed.
pub fn render_save_dialog(app: &App, width: u16, height: u16) -> (result: Option<SaveDialog>)
    ensures
        match app@.save {
            None => result is None,
            Some(save) => result matches Some(dialog) && {
                &&& dialog.area == centered(
                    72,
                    8,
                    (Area { x: 0, y: 0, width, height }),
                )
                &&& dialog.input@ == "File name or path: "@ + sanitized(save.value)
                &&& dialog.message@ == (match save.error {
                    Some(error) => error,
                    None => "Enter save · Esc cancel"@,
                })
                &&& dialog.cursor_x == cursor_column(dialog.area, save.value.len())
                &&& dialog.cursor_y == dialog.area.y + 1
            },
        },
{
    let save = match &app.save {
        Some(save) => save,
        None => return None,
    };
    let area = centered_rect(72, 8, Area { x: 0, y: 0, width, height });
    let message = match &save.error {
        Some(error) => error.clone(),
        None => "Enter save · Esc cancel".to_owned(),
    };
    let typed: usize = chars(save.value.as_str()).len();
    let most: u16 = (area.x + area.width).saturating_sub(1);
    let start: usize = area.x as usize + 20;
    let cursor_x: u16 = if typed >= 65535 || start + typed >= most as usize {
        most
    } else {
        (start + typed) as u16
    };
    Some(
        SaveDialog {
            area,
            input: with_detail("File name or path: ", sanitize(save.value.as_str()).as_str()),
            message,
            cursor_x,
            cursor_y: area.y + 1,
        },
    )
}

/// How many components a relative path has; a dot counts only at the start.
pub open spec fn component_count(parts: Seq<Seq<char>>) -> nat
    decreases parts.len(),
{
    if parts.len() == 0 {
        0
    } else {
        let last = parts.last();
        component_count(parts.drop_last()) + if last.len() > 0 && (last != "."@ || parts.len()
            == 1) {
            1nat
        } else {
            0nat
        }
    }
}

/// The file that a name stands for. A path that is absolute, or begins with one or two dots, or has
/// several components is taken as it is; a bare name is that of a policy beside the configuration.
pub open spec fn save_path(value: Seq<char>, config_dir: Seq<char>) -> Seq<char> {
    if begins_with(value, "/"@) || begins_with(value, "./"@) || begins_with(value, "../"@) {
        value
    } else if component_count(pieces(value, '/')) == 1 {
        below(
            config_dir,
            (if ends_with(value, ".toml"@) {
                value.take(value.len() - ".toml"@.len())
            } else {
                value
            }) + ".toml"@,
        )
    } else {
        value
    }
}

/// Finds the file that a name stands for.
pub fn resolve_save_path(value: &str, config_dir: &str) -> (result: String)
    ensures
        result@ == save_path(value@, config_dir@),
{
    if strip_prefix(value, "/").is_some() || strip_prefix(value, "./").is_some() || strip_prefix(
        value,
        "../",
    ).is_some() {
        return value.to_owned();
    }
    let parts = split(value, '/');
    let ghost all = texts(parts@);
    let mut count: usize = 0;
    assert(all.take(0).len() == 0);
    for i in 0..parts.len()
        invariant
            all == texts(parts@),
            count == component_count(all.take(i as int)),
            count <= i,
    {
        let ghost head = all.take(i + 1);
        proof {
            assert(head.drop_last() =~= all.take(i as int));
            assert(head.last() == parts@[i as int]@);
            reveal_strlit("");
            assert(head.last().len() == 0 <==> head.last() =~= ""@);
        }
        if !same(parts[i].as_str(), "") && (!same(parts[i].as_str(), ".") || i == 0) {
            count += 1;
        }
    }
    assert(all.take(parts@.len() as int) =~= all);
    if count == 1 {
        let stem = match strip_suffix(value, ".toml") {
            Some(stem) => stem,
            None => value.to_owned(),
        };
        return join_path(config_dir, with_detail(stem.as_str(), ".toml").as_str());
    }
    value.to_owned()
}

/// Where a rule set is saved; an empty one is not saved at all.
pub fn save_target(rules: &Vec<RuleDraft>, value: &str, config_dir: &str) -> (result: Result<
    String,
    String,
>)
    ensures
        if rules@.len() == 0 {
            result matches Err(error) && error@ == "no session rules"@
        } else {
            result matches Ok(path) && path@ == save_path(value@, config_dir@)
        },
{
    if rules.len() == 0 {
        return Err("no session rules".to_owned());
    }
    Ok(resolve_save_path(value, config_dir))
}

// ---------------------------------------------------------------------------
// Laws
// ---------------------------------------------------------------------------

/// The question whether to clear all rules counts as asked only where its last line is on the
/// screen, and always where it is.
pub proof fn questions_are_asked_in_full(app: AppModel, width: u16, height: u16)
    requires
        app.clear_confirmation != ClearConfirmation::Closed,
    ensures
        app.drawn(width, height).clear_confirmation == ClearConfirmation::Visible <==> message_lines(
            app.footer(),
            width,
        ) <= app.division(width, height).footer_height,
        app.drawn(width, height).clear_confirmation != ClearConfirmation::Closed,
{
}

/// Drawing changes nothing but whether a question counts as asked; in particular it keeps the
/// selection, however the screen is divided.
pub proof fn drawing_keeps_the_selection(app: AppModel, width: u16, height: u16)
    ensures
        app.drawn(width, height) == (AppModel {
            clear_confirmation: app.drawn(width, height).clear_confirmation,
            ..app
        }),
        app.drawn(width, height).selected_id() == app.selected_id(),
{
}

/// The footer leaves at least three rows to the rest of the screen, if there are three.
pub proof fn footers_leave_room(app: AppModel, width: u16, height: u16)
    requires
        height >= 3,
    ensures
        height - app.division(width, height).footer_height >= 3,
{
}

/// A countdown shows whole minutes and, in two digits, the seconds beyond them.
pub proof fn countdowns_show_minutes_and_seconds(seconds: nat)
    ensures
        seconds % 60 >= 10 ==> countdown(seconds) == decimal(seconds / 60) + ("m "@ + (decimal(
            seconds % 60,
        ) + "s"@)),
        seconds % 60 < 10 ==> countdown(seconds) == decimal(seconds / 60) + ("m 0"@ + (decimal(
            seconds % 60,
        ) + "s"@)),
{
    reveal_strlit("m ");
    reveal_strlit("m 0");
    reveal_strlit("0");
    reveal_strlit("");
    assert("m "@ + ("0"@ + (decimal(seconds % 60) + "s"@)) =~= "m 0"@ + (decimal(seconds % 60)
        + "s"@));
    assert(""@ + (decimal(seconds % 60) + "s"@) =~= decimal(seconds % 60) + "s"@);
}

/// What is left of a lease is the whole seconds until its deadline, and nothing once it has passed;
/// of a deadline that is no time nothing is known.
pub proof fn leases_run_down_to_zero(deadline: i128, now: u128, text: Seq<char>)
    ensures
        deadline <= now ==> seconds_left(deadline, now) == 0,
        deadline > now ==> seconds_left(deadline, now) * 1000000000 <= deadline - now < (
        seconds_left(deadline, now) + 1) * 1000000000,
        instant_of(text) matches Some(instant) ==> lease_text(text, now) == countdown(
            seconds_left(instant, now),
        ),
        instant_of(text) is None ==> lease_text(text, now) == "unknown"@,
{
}

/// The footer shows what is asked or typed, the path before the question and the question before
/// the reason; otherwise the status line, the number of rules and the state of debug capture.
pub proof fn footers_show_what_is_open(app: AppModel)
    ensures
        app.save matches Some(save) ==> app.footer() == "Save rules to file: "@ + (sanitized(
            save.value,
        ) + ((if save.error is Some {
            " · "@ + save.error->0
        } else {
            ""@
        }) + " | Enter save · Esc cancel"@)),
        app.save is None && app.clear_confirmation != ClearConfirmation::Closed ==> app.footer()
            == "Clear ALL "@ + (decimal(app.session_rule_count as nat)
            + " allow/deny rules in this daemon (all clients)? Pending requests unchanged. y confirm | n/Esc cancel | Ctrl-C quit"@),
        app.save is None && app.clear_confirmation == ClearConfirmation::Closed && app.reason
            is Some ==> app.footer() == "Deny reason: "@ + (sanitized(app.reason->0.value) + (
        if app.reason->0.error is Some {
            " · "@ + app.reason->0.error->0
        } else {
            ""@
        })),
        app.save is None && app.clear_confirmation == ClearConfirmation::Closed && app.reason
            is None ==> app.footer() == (if app.connected {
            "C clear rules | "@
        } else {
            ""@
        }) + (sanitized(app.status) + (" · session rules: "@ + (decimal(
            app.session_rule_count as nat,
        ) + capture_text(app.debug_capture)))),
        app.clear_confirmation == ClearConfirmation::Hidden ==> app.shown_footer()
            == "Resize to confirm. n/Esc cancel | Ctrl-C quit"@,
        app.clear_confirmation != ClearConfirmation::Hidden ==> app.shown_footer() == app.footer(),
        app.debug_capture is Failed ==> capture_text(app.debug_capture)
            == " · debug capture: failed"@,
        app.debug_capture is Enabled ==> capture_text(app.debug_capture)
            == " · debug capture: enabled"@,
        app.debug_capture is Disabled ==> capture_text(app.debug_capture) == ""@,
{
}

/// The left pane takes 38 of every hundred columns, to the nearest whole column.
pub proof fn the_left_pane_takes_its_share(width: u16)
    ensures
        38 * width - 50 <= 100 * left_columns(width) <= 38 * width + 50,
        left_columns(width) <= width,
{
}

/// A footer has as many rows as its message has lines, but at least two and at most its limit, and
/// no more than the screen can spare.
pub proof fn footers_have_the_rows_they_need(lines: nat, most: u16, height: u16)
    requires
        most >= 2,
    ensures
        2 <= footer_rows(lines, most) <= most,
        2 <= lines <= most ==> footer_rows(lines, most) == lines,
        lines > most ==> footer_rows(lines, most) == most,
        lines < 2 ==> footer_rows(lines, most) == 2,
        2 <= lines <= 6 && lines + 3 <= height ==> footer_height(lines, height) == lines,
        lines > 6 && height >= 9 ==> footer_height(lines, height) == 6,
        height <= 3 ==> footer_height(lines, height) == 0,
        3 < height && height - 3 <= 2 ==> footer_height(lines, height) == height - 3,
{
}

/// A wide screen shows the queue and the detail side by side, a narrow one the panel that is turned
/// up.
pub proof fn wide_screens_show_both_panes(app: AppModel, width: u16, height: u16)
    ensures
        width >= 90 <==> app.division(width, height).panes is Both,
        width < 90 && app.show_detail_panel <==> app.division(width, height).panes is Detail,
        width < 90 && !app.show_detail_panel <==> app.division(width, height).panes is Queue,
{
}

/// A line of the queue is the kind of the approval and its summary, cut where the pane ends.
pub proof fn queue_lines_fit_the_pane(approval: SummaryModel, width: u16)
    ensures
        ({
            let prefix = approval.capability_type + " · "@;
            let line = queue_text(approval, width);
            let room = width - line_columns(prefix) - 2;
            &&& prefix.is_prefix_of(line)
            &&& room >= 0 ==> line == prefix + truncated(approval.summary, room as nat)
            &&& room < 0 ==> line == prefix + truncated(approval.summary, 0)
        }),
{
    let prefix = approval.capability_type + " · "@;
    assert(queue_text(approval, width).subrange(0, prefix.len() as int) =~= prefix);
}

/// The detail shows the identifier, each field with its label in order, the deadline and what is
/// left of the lease; without a selection it says so.
pub proof fn details_are_shown_line_by_line(detail: ApprovalDetailModel, now: u128)
    ensures
        ({
            let lines = detail_lines(Some(detail), now);
            let n = detail.content.fields.len() as int;
            &&& lines.len() == n + 3
            &&& lines[0] == (detail.approval_id, ""@)
            &&& forall|i: int|
                0 <= i < n ==> lines[i + 1] == (
                    (#[trigger] detail.content.fields[i]).label + ": "@,
                    detail.content.fields[i].value,
                )
            &&& lines[n + 1] == (""@, "Deadline: "@ + detail.deadline)
            &&& lines[n + 2] == (""@, "Lease remaining: "@ + lease_text(detail.deadline, now))
        }),
        detail_lines(None, now) == seq![(""@, "No pending approval selected."@)],
{
}

/// A rule is chosen only where there is room for it, and side by side with its source where there
/// is plenty; the source takes a quarter of the rows, from three to six.
pub proof fn choices_need_room(
    editing: EditingModel,
    rule_count: usize,
    capture: CaptureStatusModel,
    width: u16,
    height: u16,
    now: u128,
)
    ensures
        ({
            let division = editing.division(rule_count, capture, width, height, now);
            &&& division is None <==> width < 40 || height < 22
            &&& division matches Some(parts) ==> {
                &&& parts.side_by_side <==> width >= 90
                &&& 2 <= parts.footer_height <= 4
                &&& 3 <= parts.source_height <= 6
                &&& parts.footer == "Lifetime: daemon run | session rules: "@ + (decimal(
                    rule_count as nat,
                ) + (" | Lease: "@ + (lease_text(editing.deadline, now) + (capture_text(capture)
                    + " | Ctrl-Up/Down source | Ctrl-C quit"@))))
                &&& 3 * 4 <= height - parts.footer_height <= 6 * 4 ==> parts.source_height * 4
                    <= height - parts.footer_height < (parts.source_height + 1) * 4
            }
        }),
{
}

/// The source of a rule is shown with its identifier, its access, its path in visible form, and its
/// reason if there is one.
pub proof fn sources_are_shown_line_by_line(editing: EditingModel)
    ensures
        source_lines(editing)[0] == editing.approval_id,
        editing.request matches RequestModel::Capability { path, access, reason, .. } ==> {
            let lines = source_lines(editing);
            &&& lines[1] == "Access: "@ + access.name()
            &&& lines[2] == visible_path(path)
            &&& reason is None ==> lines.len() == 3
            &&& reason matches Some(text) ==> lines.len() == 4 && lines[3] == "Reason: "@
                + sanitized(text)
        },
        !(editing.request is Capability) ==> source_lines(editing).len() == 1,
{
}

/// A dialog lies in the middle of the screen, as large as it asks to be or as the border leaves it,
/// with as much free on either side, give or take one.
pub proof fn dialogs_lie_in_the_middle(width: u16, height: u16, area: Area)
    requires
        area.x + area.width <= u16::MAX,
        area.y + area.height <= u16::MAX,
    ensures
        ({
            let part = centered(width, height, area);
            &&& width + 2 <= area.width ==> part.width == width
            &&& width + 2 > area.width && area.width >= 2 ==> part.width == area.width - 2
            &&& height + 2 <= area.height ==> part.height == height
            &&& height + 2 > area.height && area.height >= 2 ==> part.height == area.height - 2
            &&& area.x <= part.x && part.x + part.width <= area.x + area.width
            &&& area.y <= part.y && part.y + part.height <= area.y + area.height
            &&& 0 <= (area.x + area.width - (part.x + part.width)) - (part.x - area.x) <= 1
            &&& 0 <= (area.y + area.height - (part.y + part.height)) - (part.y - area.y) <= 1
        }),
{
}

/// The cursor stands behind what is typed, and at the edge of the dialog where that is further on.
pub proof fn the_cursor_follows_what_is_typed(area: Area, typed: nat)
    requires
        area.x + area.width <= u16::MAX,
        area.width > 0,
    ensures
        area.x + 20 + typed < area.x + area.width - 1 ==> cursor_column(area, typed) == area.x + 20
            + typed,
        area.x + 20 + typed >= area.x + area.width - 1 ==> cursor_column(area, typed) == area.x
            + area.width - 1,
{
}

/// A bare name stands for a policy beside the configuration, with `.toml` behind it once, whether
/// or not it was typed; a path that is absolute or begins with a dot step is taken as it is.
pub proof fn bare_names_are_policies(name: Seq<char>, value: Seq<char>, config_dir: Seq<char>)
    requires
        name.len() > 0,
        !name.contains('/'),
        !ends_with(name, ".toml"@),
    ensures
        save_path(name, config_dir) == below(config_dir, name + ".toml"@),
        save_path(name + ".toml"@, config_dir) == below(config_dir, name + ".toml"@),
        begins_with(value, "/"@) || begins_with(value, "./"@) || begins_with(value, "../"@)
            ==> save_path(value, config_dir) == value,
{
    reveal_strlit("/");
    reveal_strlit("./");
    reveal_strlit("../");
    reveal_strlit(".toml");
    let full = name + ".toml"@;
    assert forall|i: int| 0 <= i < full.len() implies full[i] != '/' by {
        if i < name.len() {
            assert(name.contains(name[i]));
        } else {
            assert(full[i] == ".toml"@[i - name.len()]);
        }
    }
    lemma_bare(name);
    lemma_bare(full);
    crate::text::starts_and_ends_are_split_off(full, ".toml"@, name);
}

proof fn lemma_bare(name: Seq<char>)
    requires
        name.len() > 0,
        !name.contains('/'),
    ensures
        !begins_with(name, "/"@),
        !begins_with(name, "./"@),
        !begins_with(name, "../"@),
        component_count(pieces(name, '/')) == 1,
{
    reveal_strlit("/");
    reveal_strlit("./");
    reveal_strlit("../");
    reveal_with_fuel(component_count, 2);
    crate::text::both_sides_of_a_separator_are_split(name, Seq::empty(), '/');
    assert(seq![name].drop_last() =~= Seq::<Seq<char>>::empty());
    if begins_with(name, "/"@) {
        assert(name.take(1)[0] == name[0]);
        assert(name.contains(name[0]));
    }
    if begins_with(name, "./"@) {
        assert(name.take(2)[1] == name[1]);
        assert(name.contains(name[1]));
    }
    if begins_with(name, "../"@) {
        assert(name.take(3)[2] == name[2]);
        assert(name.contains(name[2]));
    }
}

/// A path of two names or more is taken as it is.
pub proof fn longer_paths_are_taken_as_they_are(
    first: Seq<char>,
    second: Seq<char>,
    config_dir: Seq<char>,
)
    requires
        crate::policy::is_entry_name(first),
        crate::policy::is_entry_name(second),
    ensures
        save_path(first + seq!['/'] + second, config_dir) == first + seq!['/'] + second,
{
    reveal_strlit(".");
    reveal_with_fuel(component_count, 3);
    crate::text::both_sides_of_a_separator_are_split(first, second, '/');
    crate::text::both_sides_of_a_separator_are_split(second, first, '/');
    assert(pieces(first + seq!['/'] + second, '/') =~= seq![first, second]);
    assert(seq![first, second].drop_last() =~= seq![first]);
    assert(seq![first].drop_last() =~= Seq::<Seq<char>>::empty());
    assert("."@ =~= seq!['.']);
}

/// The queue is titled by whether the daemon is there; a rule set is saved unless it is empty.
pub proof fn titles_and_targets_follow_the_state(
    connected: bool,
    title: &'static str,
    rules: &Vec<RuleDraft>,
    value: &str,
    config_dir: &str,
    target: Result<String, String>,
)
    requires
        call_ensures(queue_title, (connected,), title),
        call_ensures(save_target, (rules, value, config_dir), target),
    ensures
        connected ==> title@ == " Pending approvals "@,
        !connected ==> title@ == " Disconnected — waiting for daemon… "@,
        target is Err <==> rules@.len() == 0,
        target matches Ok(path) ==> path@ == save_path(value@, config_dir@),
{
}

/// The dialog shows the path as it is typed, and what is wrong with it or else how to leave.
pub proof fn the_dialog_shows_what_is_typed(
    app: &App,
    width: u16,
    height: u16,
    result: Option<SaveDialog>,
)
    requires
        call_ensures(render_save_dialog, (app, width, height), result),
    ensures
        result is Some <==> app@.save is Some,
        result matches Some(dialog) ==> {
            let save = app@.save->0;
            &&& dialog.input@ == "File name or path: "@ + sanitized(save.value)
            &&& save.error is Some ==> dialog.message@ == save.error->0
            &&& save.error is None ==> dialog.message@ == "Enter save · Esc cancel"@
            &&& dialog.area == centered(72, 8, (Area { x: 0, y: 0, width, height }))
            &&& dialog.cursor_y == dialog.area.y + 1
        },
{
}

/// A list of detail lines is seen in its own order, and a screen is too small below forty columns or
/// twenty-two rows.
pub proof fn detail_lines_are_seen_in_order(lines: Seq<DetailLine>, width: u16, height: u16)
    ensures
        detail_line_models(lines).len() == lines.len(),
        forall|i: int|
            0 <= i < lines.len() ==> #[trigger] detail_line_models(lines)[i] == (
                lines[i].label@,
                lines[i].text@,
            ),
        too_small(width, height) <==> width < 40 || height < 22,
{
}

} // verus!
