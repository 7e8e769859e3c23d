//! The command line: how its options change the configuration, and what its commands print.
use vstd::prelude::*;

use crate::broker::{
    reason_error, summary_models, validate_denial_reason, ApprovalDetailModel, ApprovalSummary,
    BrokerConfig, BrokerError, ShowModel, SummaryModel, DEFAULT_DENIAL_REASON,
    DEFAULT_TOMBSTONE_LIMIT, DEFAULT_TOMBSTONE_TTL,
};
use crate::config::{is_usable, ListenAddr, ResolvedConfig};
use crate::control::{
    ApprovalView, DaemonStatus, DecisionRequest, DecisionResponse, SessionRuleRequest, StatusModel,
};
use crate::daemon::{endpoint, endpoint_of};
use crate::debug_capture::{
    info_models, CaptureInfo, CaptureInfoModel, CaptureStatusModel, DebugCaptureStatus,
};
use crate::display::{
    json_string, json_text, sanitize, sanitized, truncate_summary, truncated, FieldModel,
};
use crate::policy::{RuleAction, RuleScope};
use crate::protocol::{DecisionModel, SourceKind};
use crate::text::{
    chars, decimal, decimal_text, pad_right, texts, with_detail,
};

verus! {

// ---------------------------------------------------------------------------
// Configuration
// ---------------------------------------------------------------------------

/// The options of `serve` that stand above the configuration file.
#[derive(Clone, Copy, Debug)]
pub struct ServeArgs {
    pub webhook_listen: Option<ListenAddr>,
    pub request_timeout: Option<u128>,
    pub max_pending: Option<usize>,
    pub max_per_session: Option<usize>,
    pub max_body: Option<usize>,
}

/// An option, or else what the file says.
pub open spec fn option_or<T>(option: Option<T>, file: T) -> T {
    match option {
        Some(value) => value,
        None => file,
    }
}

/// The configuration with the options above it.
pub open spec fn merged(config: ResolvedConfig, args: ServeArgs) -> ResolvedConfig {
    ResolvedConfig {
        webhook_listen: option_or(args.webhook_listen, config.webhook_listen),
        request_timeout: option_or(args.request_timeout, config.request_timeout),
        max_pending: option_or(args.max_pending, config.max_pending),
        max_per_session: option_or(args.max_per_session, config.max_per_session),
        max_body_bytes: option_or(args.max_body, config.max_body_bytes),
    }
}

/// Puts the options above the configuration.
pub fn merge_config(config: ResolvedConfig, args: &ServeArgs) -> (result: ResolvedConfig)
    ensures
        result == merged(config, *args),
{
    let mut config = config;
    if let Some(value) = args.webhook_listen {
        config.webhook_listen = value;
    }
    if let Some(value) = args.request_timeout {
        config.request_timeout = value;
    }
    if let Some(value) = args.max_pending {
        config.max_pending = value;
    }
    if let Some(value) = args.max_per_session {
        config.max_per_session = value;
    }
    if let Some(value) = args.max_body {
        config.max_body_bytes = value;
    }
    config
}

/// What is wrong with a configuration once the options are above it, if anything is.
pub open spec fn resolved_problem(config: ResolvedConfig) -> Option<Seq<char>> {
    if !config.webhook_listen.ip.loopback() {
        Some("webhook listener must use a loopback IP address"@)
    } else if config.max_pending == 0 || config.max_per_session == 0 || config.max_body_bytes == 0 {
        Some("configured limits must be greater than zero"@)
    } else if config.max_per_session > config.max_pending {
        Some("max-per-session must not exceed max-pending"@)
    } else {
        None
    }
}

/// Checks a configuration once the options are above it.
pub fn validate_resolved(config: &ResolvedConfig) -> (result: Result<(), &'static str>)
    ensures
        match resolved_problem(*config) {
            Some(problem) => result matches Err(error) && error@ == problem,
            None => result is Ok,
        },
        result is Ok <==> is_usable(*config),
{
    if !config.webhook_listen.ip.is_loopback() {
        return Err("webhook listener must use a loopback IP address");
    }
    if config.max_pending == 0 || config.max_per_session == 0 || config.max_body_bytes == 0 {
        return Err("configured limits must be greater than zero");
    }
    if config.max_per_session > config.max_pending {
        return Err("max-per-session must not exceed max-pending");
    }
    Ok(())
}

/// The settings of the broker in a configuration.
pub fn broker_config(config: &ResolvedConfig) -> (result: BrokerConfig)
    ensures
        result == (BrokerConfig {
            request_timeout: config.request_timeout,
            max_pending: config.max_pending,
            max_per_session: config.max_per_session,
            tombstone_limit: DEFAULT_TOMBSTONE_LIMIT,
            tombstone_ttl: DEFAULT_TOMBSTONE_TTL,
        }),
{
    BrokerConfig {
        request_timeout: config.request_timeout,
        max_pending: config.max_pending,
        max_per_session: config.max_per_session,
        tombstone_limit: DEFAULT_TOMBSTONE_LIMIT,
        tombstone_ttl: DEFAULT_TOMBSTONE_TTL,
    }
}

// ---------------------------------------------------------------------------
// Decisions
// ---------------------------------------------------------------------------

/// The denial that `deny` sends: with the given reason if it is valid, or with the fixed one.
pub fn denial(reason: Option<String>) -> (result: Result<DecisionRequest, BrokerError>)
    ensures
        ({
            let text = match reason {
                Some(text) => text@,
                None => DEFAULT_DENIAL_REASON@,
            };
            match reason_error(text) {
                Some(refusal) => result matches Err(error) && error@ == refusal,
                None => result matches Ok(decision) && decision@ == (DecisionModel::Denied {
                    reason: text,
                }),
            }
        }),
{
    let reason = match reason {
        Some(reason) => reason,
        None => DEFAULT_DENIAL_REASON.to_owned(),
    };
    match validate_denial_reason(reason.as_str()) {
        Ok(()) => Ok(DecisionRequest::Denied { reason }),
        Err(error) => Err(error),
    }
}

/// The decision to remember that `approve` and `deny` send with a scope.
pub fn remembered_decision(
    action: RuleAction,
    scope: RuleScope,
    rule_path: Option<String>,
    reason: Option<String>,
) -> (result: Result<SessionRuleRequest, BrokerError>)
    ensures
        match reason {
            Some(text) if reason_error(text@) is Some => result matches Err(error) && error@
                == reason_error(text@)->0,
            _ => result == Ok::<SessionRuleRequest, BrokerError>(
                SessionRuleRequest { action, scope, reason, path: rule_path },
            ),
        },
{
    if let Some(text) = &reason {
        if let Err(error) = validate_denial_reason(text.as_str()) {
            return Err(error);
        }
    }
    Ok(SessionRuleRequest { action, scope, reason, path: rule_path })
}

/// What a decision came to.
pub fn decision_line(response: &DecisionResponse) -> (result: String)
    ensures
        result@ == response.approval_id@ + (": "@ + response.state.word()),
{
    let rest = with_detail(": ", response.state.as_word());
    with_detail(response.approval_id.as_str(), rest.as_str())
}

// ---------------------------------------------------------------------------
// Printed lines
// ---------------------------------------------------------------------------

/// What `status` prints of debug capture.
pub open spec fn capture_line(capture: CaptureStatusModel) -> Seq<char> {
    match capture {
        CaptureStatusModel::Disabled => "Debug capture: disabled"@,
        CaptureStatusModel::Enabled { path } => "Debug capture: enabled ("@ + (sanitized(path)
            + ")"@),
        CaptureStatusModel::Failed { error_category } => "Debug capture: failed ("@ + (error_category
            + ")"@),
    }
}

/// Writes what `status` prints of debug capture.
fn write_capture(capture: &DebugCaptureStatus) -> (result: String)
    ensures
        result@ == capture_line(capture@),
{
    match capture {
        DebugCaptureStatus::Disabled => "Debug capture: disabled".to_owned(),
        DebugCaptureStatus::Enabled { path } => {
            let rest = with_detail(sanitize(path.as_str()).as_str(), ")");
            with_detail("Debug capture: enabled (", rest.as_str())
        },
        DebugCaptureStatus::Failed { error_category } => {
            let rest = with_detail(error_category.as_str(), ")");
            with_detail("Debug capture: failed (", rest.as_str())
        },
    }
}

/// What `status` prints.
pub open spec fn status_lines_of(status: StatusModel) -> Seq<Seq<char>> {
    seq![
        "Daemon: running"@,
        "Pending: "@ + decimal(status.pending as nat),
        "Started: "@ + (decimal(status.uptime_seconds as nat) + "s ago"@),
        "Webhook: "@ + status.webhook_listen,
        "Session rules: "@ + decimal(status.session_rule_count as nat),
        capture_line(status.debug_capture),
    ]
}

/// Writes what `status` prints.
pub fn status_lines(status: &DaemonStatus) -> (result: Vec<String>)
    ensures
        texts(result@) == status_lines_of(status@),
{
    let mut lines: Vec<String> = Vec::new();
    lines.push("Daemon: running".to_owned());
    lines.push(with_detail("Pending: ", decimal_text(status.pending as u64).as_str()));
    let ago = with_detail(decimal_text(status.uptime_seconds).as_str(), "s ago");
    lines.push(with_detail("Started: ", ago.as_str()));
    lines.push(with_detail("Webhook: ", status.webhook_listen.as_str()));
    lines.push(
        with_detail("Session rules: ", decimal_text(status.session_rule_count as u64).as_str()),
    );
    lines.push(write_capture(&status.debug_capture));
    assert(texts(lines@) =~= status_lines_of(status@));
    lines
}

/// Fills a text up with blanks to a width in characters.
fn pad(value: &str, width: usize) -> (result: String)
    ensures
        result@ == pad_right(value@, width as nat),
{
    let length: usize = chars(value).len();
    let mut result = value.to_owned();
    let mut i: usize = length;
    while i < width
        invariant
            length == value@.len(),
            length <= i,
            i <= width || i == length,
            result@ == value@ + Seq::new((i - length) as nat, |k: int| ' '),
        decreases width - i,
    {
        let ghost before = result@;
        result.push(' ');
        i += 1;
        assert(result@ =~= value@ + Seq::new((i - length) as nat, |k: int| ' '));
    }
    assert(result@ =~= pad_right(value@, width as nat));
    result
}

/// The room for the summary in a line of `list`.
pub open spec fn summary_width(terminal_width: usize) -> nat {
    if terminal_width < 34 {
        0
    } else {
        (terminal_width - 34) as nat
    }
}

/// A line of `list`: the identifier, the kind, and as much of the summary as fits.
pub open spec fn list_line(approval: SummaryModel, terminal_width: usize) -> Seq<char> {
    pad_right(approval.approval_id, 21) + (" "@ + (pad_right(approval.capability_type, 11) + (" "@
        + truncated(approval.summary, summary_width(terminal_width)))))
}

/// What `list` prints.
pub open spec fn list_lines_of(approvals: Seq<SummaryModel>, terminal_width: usize) -> Seq<
    Seq<char>,
> {
    seq!["ID                     TYPE        REQUEST"@] + approvals.map_values(
        |a: SummaryModel| list_line(a, terminal_width),
    )
}

/// Writes what `list` prints.
pub fn list_lines(approvals: &Vec<ApprovalSummary>, terminal_width: usize) -> (result: Vec<String>)
    ensures
        texts(result@) == list_lines_of(summary_models(approvals@), terminal_width),
{
    let ghost models = summary_models(approvals@);
    let ghost expected = list_lines_of(models, terminal_width);
    let mut lines: Vec<String> = Vec::new();
    lines.push("ID                     TYPE        REQUEST".to_owned());
    assert(texts(lines@) =~= expected.take(1));
    let room: usize = terminal_width.saturating_sub(34);
    for i in 0..approvals.len()
        invariant
            models == summary_models(approvals@),
            expected == list_lines_of(models, terminal_width),
            room == summary_width(terminal_width),
            lines@.len() == i + 1,
            texts(lines@) == expected.take(i + 1),
    {
        let approval = &approvals[i];
        assert(models[i as int] == approval@);
        let ghost before = lines@;
        let rest = with_detail(" ", truncate_summary(approval.summary.as_str(), room).as_str());
        let rest = with_detail(pad(approval.capability_type.as_str(), 11).as_str(), rest.as_str());
        let rest = with_detail(" ", rest.as_str());
        lines.push(with_detail(pad(approval.approval_id.as_str(), 21).as_str(), rest.as_str()));
        proof {
            assert(expected[i + 1] == list_line(models[i as int], terminal_width));
            assert(texts(lines@) =~= texts(before).push(expected[i + 1]));
            assert(expected.take(i + 2) =~= expected.take(i + 1).push(expected[i + 1]));
        }
    }
    assert(expected.take(approvals@.len() as int + 1) =~= expected);
    lines
}

impl SourceKind {
    /// The word for the kind.
    pub open spec fn word(self) -> Seq<char> {
        match self {
            SourceKind::ToolSandbox => "ToolSandbox"@,
            SourceKind::Proxy => "Proxy"@,
            SourceKind::Capability => "Capability"@,
            SourceKind::Network => "Network"@,
        }
    }

    /// The word for the kind.
    pub fn as_word(&self) -> (result: &'static str)
        ensures
            result@ == self.word(),
    {
        match self {
            SourceKind::ToolSandbox => "ToolSandbox",
            SourceKind::Proxy => "Proxy",
            SourceKind::Capability => "Capability",
            SourceKind::Network => "Network",
        }
    }
}

/// The lines that `show` prints of the fields.
pub open spec fn printed_fields(fields: Seq<FieldModel>) -> Seq<Seq<char>> {
    fields.map_values(|field: FieldModel| field.label + (": "@ + field.value))
}

/// What `show --debug` adds, where `wire_request` is the request as JSON.
pub open spec fn debug_lines(detail: ApprovalDetailModel, wire_request: Seq<char>) -> Seq<Seq<char>> {
    seq![""@, "Debug:"@] + (match detail.debug {
        Some(debug) => seq![
            "Claimed backend: "@ + sanitized(debug.claimed_backend),
            "Source: "@ + debug.source_kind.word(),
            "Wire DTO: "@ + wire_request,
        ],
        None => Seq::empty(),
    })
}

/// What `show` prints, where `wire_request` is the request as JSON.
pub open spec fn show_lines_of(shown: ShowModel, debug: bool, wire_request: Seq<char>) -> Seq<
    Seq<char>,
> {
    match shown {
        ShowModel::Pending(detail) => seq!["Approval: "@ + detail.approval_id] + printed_fields(
            detail.content.fields,
        ) + seq!["Received: "@ + detail.received_at, "Deadline: "@ + detail.deadline] + (if debug {
            debug_lines(detail, wire_request)
        } else {
            Seq::empty()
        }),
        ShowModel::Completed(completed) => seq![
            "Approval: "@ + completed.approval_id,
            "State: "@ + completed.state.word(),
            "Completed: "@ + completed.completed_at,
        ],
    }
}

/// Writes what `show` prints, where `wire_request` is the request as JSON.
pub fn show_lines(view: &ApprovalView, debug: bool, wire_request: &str) -> (result: Vec<String>)
    ensures
        texts(result@) == show_lines_of(view@, debug, wire_request@),
        view matches ApprovalView::Pending(detail) ==> {
            let n = detail.content.fields@.len() as int;
            &&& result@.len() >= n + 3
            &&& !debug ==> result@.len() == n + 3
            &&& result@[0]@ == "Approval: "@ + detail.approval_id@
            &&& forall|i: int|
                0 <= i < n ==> result@[i + 1]@ == (#[trigger] detail.content.fields@[i]).label@ + (
                ": "@ + detail.content.fields@[i].value@)
            &&& result@[n + 1]@ == "Received: "@ + detail.received_at@
            &&& result@[n + 2]@ == "Deadline: "@ + detail.deadline@
        },
        view matches ApprovalView::Completed(completed) ==> {
            &&& result@.len() == 3
            &&& result@[0]@ == "Approval: "@ + completed.approval_id@
            &&& result@[1]@ == "State: "@ + completed.state.word()
            &&& result@[2]@ == "Completed: "@ + completed.completed_at@
        },
{
    let mut lines: Vec<String> = Vec::new();
    match view {
        ApprovalView::Pending(detail) => {
            lines.push(with_detail("Approval: ", detail.approval_id.as_str()));
            let ghost head = seq!["Approval: "@ + detail@.approval_id];
            let ghost middle = printed_fields(detail@.content.fields);
            assert(texts(lines@) =~= head + middle.take(0));
            for i in 0..detail.content.fields.len()
                invariant
                    head.len() == 1,
                    middle == printed_fields(detail@.content.fields),
                    texts(lines@) == head + middle.take(i as int),
            {
                let field = &detail.content.fields[i];
                let ghost before = lines@;
                assert(detail@.content.fields[i as int] == field@);
                let rest = with_detail(": ", field.value.as_str());
                lines.push(with_detail(field.label.as_str(), rest.as_str()));
                assert(texts(lines@) =~= texts(before).push(middle[i as int]));
                assert(middle.take(i + 1) =~= middle.take(i as int).push(middle[i as int]));
                assert(texts(lines@) =~= head + middle.take(i + 1));
            }
            assert(middle.take(detail.content.fields@.len() as int) =~= middle);
            lines.push(with_detail("Received: ", detail.received_at.as_str()));
            lines.push(with_detail("Deadline: ", detail.deadline.as_str()));
            if debug {
                lines.push("".to_owned());
                lines.push("Debug:".to_owned());
                if let Some(extra) = &detail.debug {
                    lines.push(
                        with_detail(
                            "Claimed backend: ",
                            sanitize(extra.claimed_backend.as_str()).as_str(),
                        ),
                    );
                    lines.push(with_detail("Source: ", extra.source_kind.as_word()));
                    lines.push(with_detail("Wire DTO: ", wire_request));
                }
            }
        },
        ApprovalView::Completed(completed) => {
            lines.push(with_detail("Approval: ", completed.approval_id.as_str()));
            lines.push(with_detail("State: ", completed.state.as_word()));
            lines.push(with_detail("Completed: ", completed.completed_at.as_str()));
        },
    }
    assert(texts(lines@) =~= show_lines_of(view@, debug, wire_request@));
    proof {
        let told = texts(lines@);
        assert forall|k: int| 0 <= k < lines@.len() implies #[trigger] lines@[k]@ == told[k] by {}
        if let ApprovalView::Pending(detail) = view {
            pending_approvals_are_printed_line_by_line(detail@, debug, wire_request@);
            assert forall|i: int| 0 <= i < detail.content.fields@.len() implies lines@[i + 1]@ == (
            #[trigger] detail.content.fields@[i]).label@ + (": "@
                + detail.content.fields@[i].value@) by {
                assert(detail@.content.fields[i] == detail.content.fields@[i]@);
            }
        }
    }
    lines
}

/// What `setup` prints: the file, the address of the webhook, and the fragment of a nono profile
/// that names it.
pub open spec fn setup_lines_of(config_file: Seq<char>, listen: Seq<char>) -> Seq<Seq<char>> {
    seq![
        "Configuration: "@ + sanitized(config_file),
        "Webhook endpoint: "@ + endpoint_of(listen),
        ""@,
        "nono profile fragment:"@,
        "{"@,
        "  \"command_policies\": {"@,
        "    \"approval_backends\": {"@,
        "      \"local-broker\": {"@,
        "        \"timeout_secs\": 300,"@,
        "        \"type\": \"webhook\","@,
        "        \"url\": "@ + json_string(endpoint_of(listen)),
        "      }"@,
        "    },"@,
        "    \"approval_defaults\": {"@,
        "      \"backend\": \"local-broker\","@,
        "      \"timeout_secs\": 300"@,
        "    }"@,
        "  }"@,
        "}"@,
        ""@,
        "Validate isolation with: nono-approval config validate --profile <name-or-path>"@,
    ]
}

/// Writes what `setup` prints.
pub fn setup_lines(config_file: &str, listen: &str) -> (result: Vec<String>)
    ensures
        texts(result@) == setup_lines_of(config_file@, listen@),
{
    let address = endpoint(listen);
    let mut lines: Vec<String> = Vec::new();
    lines.push(with_detail("Configuration: ", sanitize(config_file).as_str()));
    lines.push(with_detail("Webhook endpoint: ", address.as_str()));
    lines.push("".to_owned());
    lines.push("nono profile fragment:".to_owned());
    lines.push("{".to_owned());
    lines.push("  \"command_policies\": {".to_owned());
    lines.push("    \"approval_backends\": {".to_owned());
    lines.push("      \"local-broker\": {".to_owned());
    lines.push("        \"timeout_secs\": 300,".to_owned());
    lines.push("        \"type\": \"webhook\",".to_owned());
    lines.push(with_detail("        \"url\": ", json_text(address.as_str()).as_str()));
    lines.push("      }".to_owned());
    lines.push("    },".to_owned());
    lines.push("    \"approval_defaults\": {".to_owned());
    lines.push("      \"backend\": \"local-broker\",".to_owned());
    lines.push("      \"timeout_secs\": 300".to_owned());
    lines.push("    }".to_owned());
    lines.push("  }".to_owned());
    lines.push("}".to_owned());
    lines.push("".to_owned());
    lines.push(
        "Validate isolation with: nono-approval config validate --profile <name-or-path>".to_owned(),
    );
    assert(texts(lines@) =~= setup_lines_of(config_file@, listen@));
    lines
}

/// What `debug captures` prints of a file.
pub open spec fn capture_info_line(info: CaptureInfoModel) -> Seq<char> {
    info.name + ("\t"@ + (info.created_at + ("\t"@ + (decimal(info.size_bytes as nat)
        + " bytes"@))))
}

/// Writes what `debug captures` prints.
pub fn capture_lines(captures: &Vec<CaptureInfo>) -> (result: Vec<String>)
    ensures
        texts(result@) == info_models(captures@).map_values(
            |info: CaptureInfoModel| capture_info_line(info),
        ),
{
    let ghost models = info_models(captures@);
    let mut lines: Vec<String> = Vec::new();
    for i in 0..captures.len()
        invariant
            models == info_models(captures@),
            lines@.len() == i,
            forall|j: int| 0 <= j < i ==> (#[trigger] lines@[j])@ == capture_info_line(models[j]),
    {
        let info = &captures[i];
        assert(models[i as int] == info@);
        let rest = with_detail(decimal_text(info.size_bytes).as_str(), " bytes");
        let rest = with_detail("\t", rest.as_str());
        let rest = with_detail(info.created_at.as_str(), rest.as_str());
        let rest = with_detail("\t", rest.as_str());
        lines.push(with_detail(info.name.as_str(), rest.as_str()));
    }
    assert(texts(lines@) =~= models.map_values(|info: CaptureInfoModel| capture_info_line(info)));
    lines
}

/// What `debug clean` prints.
pub fn cleaned_line(count: usize) -> (result: String)
    ensures
        result@ == "Deleted "@ + (decimal(count as nat) + " debug capture file(s)."@),
{
    let rest = with_detail(decimal_text(count as u64).as_str(), " debug capture file(s).");
    with_detail("Deleted ", rest.as_str())
}

/// What `session-rules clear` prints.
pub fn cleared_line(count: usize) -> (result: String)
    ensures
        result@ == "Cleared "@ + (decimal(count as nat) + " session rule(s)."@),
{
    let rest = with_detail(decimal_text(count as u64).as_str(), " session rule(s).");
    with_detail("Cleared ", rest.as_str())
}

// ---------------------------------------------------------------------------
// Laws
// ---------------------------------------------------------------------------

/// Options stand above the file, and the file above nothing: where no option is given, the
/// configuration stays as it is.
pub proof fn options_stand_above_the_file(config: ResolvedConfig, args: ServeArgs)
    ensures
        args.webhook_listen is None && args.request_timeout is None && args.max_pending is None
            && args.max_per_session is None && args.max_body is None ==> merged(config, args)
            == config,
        args.max_pending matches Some(value) ==> merged(config, args).max_pending == value,
        merged(merged(config, args), args) == merged(config, args),
{
}

/// A configuration that the daemon is started with is usable, whatever the file and the options say.
pub proof fn only_usable_configurations_are_served(config: ResolvedConfig, args: ServeArgs)
    ensures
        resolved_problem(merged(config, args)) is None <==> is_usable(merged(config, args)),
{
}

/// Each option changes its own setting and no other.
pub proof fn options_change_their_own_setting(config: ResolvedConfig, args: ServeArgs)
    ensures
        ({
            let after = merged(config, args);
            &&& after.webhook_listen == if args.webhook_listen is Some {
                args.webhook_listen->0
            } else {
                config.webhook_listen
            }
            &&& after.request_timeout == if args.request_timeout is Some {
                args.request_timeout->0
            } else {
                config.request_timeout
            }
            &&& after.max_pending == if args.max_pending is Some {
                args.max_pending->0
            } else {
                config.max_pending
            }
            &&& after.max_per_session == if args.max_per_session is Some {
                args.max_per_session->0
            } else {
                config.max_per_session
            }
            &&& after.max_body_bytes == if args.max_body is Some {
                args.max_body->0
            } else {
                config.max_body_bytes
            }
        }),
{
}

/// A configuration with several problems is told the first: the address, then a limit of zero, then
/// a session that may hold more than all.
pub proof fn the_first_problem_is_told(config: ResolvedConfig)
    ensures
        resolved_problem(config) == Some("webhook listener must use a loopback IP address"@)
            || config.webhook_listen.ip.loopback(),
        config.webhook_listen.ip.loopback() && (config.max_pending == 0 || config.max_per_session
            == 0 || config.max_body_bytes == 0) ==> resolved_problem(config) == Some(
            "configured limits must be greater than zero"@,
        ),
        config.webhook_listen.ip.loopback() && config.max_pending > 0 && config.max_body_bytes > 0
            && config.max_per_session > config.max_pending ==> resolved_problem(config) == Some(
            "max-per-session must not exceed max-pending"@,
        ),
        config.webhook_listen.ip.loopback() && 0 < config.max_per_session <= config.max_pending
            && config.max_body_bytes > 0 ==> resolved_problem(config) is None,
{
}

/// What is printed of a pending approval: its identifier, each of its fields in order, when it was
/// received and when its lease ends, and nothing more unless debug data is asked for.
pub proof fn pending_approvals_are_printed_line_by_line(
    detail: ApprovalDetailModel,
    debug: bool,
    wire_request: Seq<char>,
)
    ensures
        ({
            let lines = show_lines_of(ShowModel::Pending(detail), debug, wire_request);
            let n = detail.content.fields.len() as int;
            &&& lines.len() >= n + 3
            &&& !debug ==> lines.len() == n + 3
            &&& lines[0] == "Approval: "@ + detail.approval_id
            &&& forall|i: int|
                0 <= i < n ==> lines[i + 1] == (#[trigger] detail.content.fields[i]).label + (": "@
                    + detail.content.fields[i].value)
            &&& lines[n + 1] == "Received: "@ + detail.received_at
            &&& lines[n + 2] == "Deadline: "@ + detail.deadline
            &&& debug && detail.debug is None ==> lines.len() == n + 5
            &&& debug && detail.debug is Some ==> {
                let extra = detail.debug->0;
                &&& lines.len() == n + 8
                &&& lines[n + 5] == "Claimed backend: "@ + sanitized(extra.claimed_backend)
                &&& lines[n + 6] == "Source: "@ + (match extra.source_kind {
                    SourceKind::ToolSandbox => "ToolSandbox"@,
                    SourceKind::Proxy => "Proxy"@,
                    SourceKind::Capability => "Capability"@,
                    SourceKind::Network => "Network"@,
                })
                &&& lines[n + 7] == "Wire DTO: "@ + wire_request
            }
            &&& debug ==> lines[n + 3] == ""@ && lines[n + 4] == "Debug:"@
        }),
{
}

/// What is printed of a completed approval: its identifier, how it ended and when.
pub proof fn completed_approvals_are_printed_line_by_line(
    completed: crate::broker::CompletedModel,
    debug: bool,
    wire_request: Seq<char>,
)
    ensures
        ({
            let lines = show_lines_of(ShowModel::Completed(completed), debug, wire_request);
            &&& lines.len() == 3
            &&& lines[0] == "Approval: "@ + completed.approval_id
            &&& lines[1] == "State: "@ + (match completed.state {
                crate::broker::TerminalState::Granted => "Granted"@,
                crate::broker::TerminalState::Denied => "Denied"@,
                crate::broker::TerminalState::Expired => "Expired"@,
                crate::broker::TerminalState::Cancelled => "Cancelled"@,
            })
            &&& lines[2] == "Completed: "@ + completed.completed_at
        }),
{
}

/// What is printed of the daemon: how many requests wait, for how long it has run, where it listens
/// and how many rules there are, each under its own word.
pub proof fn the_status_is_printed_line_by_line(status: StatusModel)
    ensures
        ({
            let lines = status_lines_of(status);
            &&& lines.len() == 6
            &&& lines[0] == "Daemon: running"@
            &&& lines[1] == "Pending: "@ + decimal(status.pending as nat)
            &&& lines[2] == "Started: "@ + (decimal(status.uptime_seconds as nat) + "s ago"@)
            &&& lines[3] == "Webhook: "@ + status.webhook_listen
            &&& lines[4] == "Session rules: "@ + decimal(status.session_rule_count as nat)
            &&& status.debug_capture is Disabled ==> lines[5] == "Debug capture: disabled"@
            &&& status.debug_capture matches CaptureStatusModel::Enabled { path } ==> lines[5]
                == "Debug capture: enabled ("@ + (sanitized(path) + ")"@)
            &&& status.debug_capture matches CaptureStatusModel::Failed { error_category }
                ==> lines[5] == "Debug capture: failed ("@ + (error_category + ")"@)
        }),
{
}

/// The queue is printed one line for each approval, in order, below a heading. A line begins with
/// the identifier and holds the kind from the 23rd column on, and the summary, as far as there is
/// room, from the 35th.
pub proof fn the_queue_is_printed_in_order(
    approvals: Seq<SummaryModel>,
    terminal_width: usize,
    i: int,
)
    requires
        0 <= i < approvals.len(),
        approvals[i].approval_id.len() <= 21,
        approvals[i].capability_type.len() <= 11,
    ensures
        ({
            let lines = list_lines_of(approvals, terminal_width);
            let line = lines[i + 1];
            let shown = truncated(
                approvals[i].summary,
                if terminal_width >= 34 {
                    (terminal_width - 34) as nat
                } else {
                    0
                },
            );
            &&& lines.len() == approvals.len() + 1
            &&& lines[0] == "ID                     TYPE        REQUEST"@
            &&& line.take(approvals[i].approval_id.len() as int) == approvals[i].approval_id
            &&& line.skip(22).take(approvals[i].capability_type.len() as int)
                == approvals[i].capability_type
            &&& line.skip(34) == shown
            &&& forall|k: int|
                approvals[i].approval_id.len() <= k < 22 ==> #[trigger] line[k] == ' '
            &&& forall|k: int|
                22 + approvals[i].capability_type.len() <= k < 34 ==> #[trigger] line[k] == ' '
        }),
{
    reveal_strlit(" ");
    let approval = approvals[i];
    let lines = list_lines_of(approvals, terminal_width);
    let line = list_line(approval, terminal_width);
    let shown = truncated(approval.summary, summary_width(terminal_width));
    assert(lines[i + 1] == line);
    assert(line.len() == 34 + shown.len());
    assert(line.skip(34) =~= shown);
    assert(line.take(approval.approval_id.len() as int) =~= approval.approval_id);
    assert(line.skip(22).take(approval.capability_type.len() as int)
        =~= approval.capability_type);
}

/// A capture file is printed with its name, when it was made and its size in bytes, in this order
/// and apart by tabs.
pub proof fn captures_are_printed_with_time_and_size(info: CaptureInfoModel)
    ensures
        capture_info_line(info) == info.name + seq!['\t'] + info.created_at + seq!['\t'] + decimal(
            info.size_bytes as nat,
        ) + " bytes"@,
{
    reveal_strlit("\t");
    assert("\t"@ =~= seq!['\t']);
    assert(capture_info_line(info) =~= info.name + seq!['\t'] + info.created_at + seq!['\t']
        + decimal(info.size_bytes as nat) + " bytes"@);
}

/// What setting up prints first is where the configuration is and where the webhook listens, and
/// the profile fragment names the same address.
pub proof fn setting_up_prints_one_address(config_file: Seq<char>, listen: Seq<char>)
    ensures
        setup_lines_of(config_file, listen)[0] == "Configuration: "@ + sanitized(config_file),
        setup_lines_of(config_file, listen)[1] == "Webhook endpoint: "@ + ("http://"@ + (listen
            + "/v1/webhooks/approval"@)),
        setup_lines_of(config_file, listen)[10] == "        \"url\": "@ + json_string(
            "http://"@ + (listen + "/v1/webhooks/approval"@),
        ),
        setup_lines_of(config_file, listen).len() == 21,
{
}

/// A denial carries the reason that is given, or the usual one, and only a valid one is sent.
pub proof fn denials_carry_their_reason(
    reason: Option<String>,
    result: Result<DecisionRequest, BrokerError>,
)
    requires
        call_ensures(denial, (reason,), result),
    ensures
        reason matches Some(text) ==> (result is Ok <==> reason_error(text@) is None),
        result matches Ok(decision) ==> decision@ == (DecisionModel::Denied {
            reason: if reason is Some {
                (reason->0)@
            } else {
                "denied by local user"@
            },
        }),
{
}

/// A decision to remember is sent as it was asked for, unless its reason is refused.
pub proof fn remembered_decisions_are_sent_as_asked(
    action: RuleAction,
    scope: RuleScope,
    path: Option<String>,
    reason: Option<String>,
    result: Result<SessionRuleRequest, BrokerError>,
)
    requires
        call_ensures(remembered_decision, (action, scope, path, reason), result),
    ensures
        result is Err <==> reason is Some && reason_error((reason->0)@) is Some,
        result matches Ok(sent) ==> sent.action == action && sent.scope == scope && sent.path
            == path && sent.reason == reason,
{
}

/// The broker gets the limits of the configuration.
pub proof fn the_broker_gets_the_configured_limits(config: &ResolvedConfig, result: BrokerConfig)
    requires
        call_ensures(broker_config, (config,), result),
    ensures
        result.request_timeout == config.request_timeout,
        result.max_pending == config.max_pending,
        result.max_per_session == config.max_per_session,
        result.tombstone_limit == 1024,
        result.tombstone_ttl == 600 * 1000000000,
{
}

/// What was done is printed with the approval and its state, or with how many there were.
pub proof fn outcomes_are_printed(
    response: &DecisionResponse,
    line: String,
    count: usize,
    cleaned: String,
    cleared: String,
)
    requires
        call_ensures(decision_line, (response,), line),
        call_ensures(cleaned_line, (count,), cleaned),
        call_ensures(cleared_line, (count,), cleared),
    ensures
        response.state is Granted ==> line@ == response.approval_id@ + (": "@ + "Granted"@),
        response.state is Denied ==> line@ == response.approval_id@ + (": "@ + "Denied"@),
        response.state is Expired ==> line@ == response.approval_id@ + (": "@ + "Expired"@),
        response.state is Cancelled ==> line@ == response.approval_id@ + (": "@ + "Cancelled"@),
        cleaned@ == "Deleted "@ + (decimal(count as nat) + " debug capture file(s)."@),
        cleared@ == "Cleared "@ + (decimal(count as nat) + " session rule(s)."@),
{
}

/// What is printed of an approval that waits holds when it was received and when its lease ends,
/// each under its own word, and a line for each of its fields.
pub proof fn printed_approvals_tell_their_times(
    view: &ApprovalView,
    debug: bool,
    wire_request: &str,
    lines: Vec<String>,
)
    requires
        call_ensures(show_lines, (view, debug, wire_request), lines),
        *view is Pending,
    ensures
        ({
            let detail = (*view)->Pending_0;
            let n = detail.content.fields@.len() as int;
            &&& texts(lines@).contains("Received: "@ + detail.received_at@)
            &&& texts(lines@).contains("Deadline: "@ + detail.deadline@)
            &&& texts(lines@).contains("Approval: "@ + detail.approval_id@)
            &&& forall|i: int|
                0 <= i < n ==> texts(lines@).contains(
                    (#[trigger] detail.content.fields@[i]).label@ + (": "@
                        + detail.content.fields@[i].value@),
                )
        }),
{
    let detail = (*view)->Pending_0;
    let n = detail.content.fields@.len() as int;
    let told = texts(lines@);
    assert(told[0] == "Approval: "@ + detail.approval_id@);
    assert(told[n + 1] == "Received: "@ + detail.received_at@);
    assert(told[n + 2] == "Deadline: "@ + detail.deadline@);
    assert forall|i: int| 0 <= i < n implies told.contains(
        (#[trigger] detail.content.fields@[i]).label@ + (": "@ + detail.content.fields@[i].value@),
    ) by {
        assert(told[i + 1] == detail.content.fields@[i].label@ + (": "@
            + detail.content.fields@[i].value@));
    }
}

} // verus!
