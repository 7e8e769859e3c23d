//! The daemon: its settings, what is checked before it starts, what it prints, and how it ends.
use vstd::prelude::*;

use crate::broker::{BrokerConfig, BrokerError, BrokerErrorModel};
use crate::config::ListenAddr;
use crate::debug_capture::{CaptureStatusModel, DebugCapture, DebugCaptureStatus};
use crate::display::{sanitize, sanitized, MAX_DETAIL_BYTES};
use crate::protocol::DEFAULT_MAX_BODY_BYTES;
use crate::runtime_path::{validate_socket_path, RuntimePathError, RuntimePathErrorModel};
use crate::text::{texts, utf8_len, with_detail};
use crate::webhook::WEBHOOK_PATH;

verus! {

/// The settings of one run of the daemon.
#[derive(Debug)]
pub struct DaemonConfig {
    pub webhook_listen: ListenAddr,
    pub control_socket: String,
    pub broker: BrokerConfig,
    pub max_body_bytes: usize,
    pub max_detail_bytes: usize,
    pub debug_capture: Option<DebugCapture>,
}

impl DaemonConfig {
    /// The built-in settings for a listener and a control socket.
    pub fn new(webhook_listen: ListenAddr, control_socket: String) -> (result: Self)
        ensures
            result.webhook_listen == webhook_listen,
            result.control_socket == control_socket,
            result.broker == (BrokerConfig {
                request_timeout: crate::broker::DEFAULT_REQUEST_TIMEOUT,
                max_pending: crate::broker::DEFAULT_MAX_PENDING,
                max_per_session: crate::broker::DEFAULT_MAX_PER_SESSION,
                tombstone_limit: crate::broker::DEFAULT_TOMBSTONE_LIMIT,
                tombstone_ttl: crate::broker::DEFAULT_TOMBSTONE_TTL,
            }),
            result.max_body_bytes == DEFAULT_MAX_BODY_BYTES,
            result.max_detail_bytes == MAX_DETAIL_BYTES,
            result.debug_capture is None,
    {
        DaemonConfig {
            webhook_listen,
            control_socket,
            broker: BrokerConfig::default(),
            max_body_bytes: DEFAULT_MAX_BODY_BYTES,
            max_detail_bytes: MAX_DETAIL_BYTES,
            debug_capture: None,
        }
    }
}

/// Why the daemon did not start, or why it ended.
#[derive(Debug, PartialEq, Eq)]
pub enum DaemonError {
    NonLoopback,
    RuntimePath(RuntimePathError),
    Io(String),
    WebhookTask(String),
    ControlTask(String),
    Broker(BrokerError),
}

/// The contents of a [`DaemonError`].
pub enum DaemonErrorModel {
    NonLoopback,
    RuntimePath(RuntimePathErrorModel),
    Io(Seq<char>),
    WebhookTask(Seq<char>),
    ControlTask(Seq<char>),
    Broker(BrokerErrorModel),
}

impl View for DaemonError {
    type V = DaemonErrorModel;

    open spec fn view(&self) -> DaemonErrorModel {
        match *self {
            DaemonError::NonLoopback => DaemonErrorModel::NonLoopback,
            DaemonError::RuntimePath(error) => DaemonErrorModel::RuntimePath(error@),
            DaemonError::Io(detail) => DaemonErrorModel::Io(detail@),
            DaemonError::WebhookTask(detail) => DaemonErrorModel::WebhookTask(detail@),
            DaemonError::ControlTask(detail) => DaemonErrorModel::ControlTask(detail@),
            DaemonError::Broker(error) => DaemonErrorModel::Broker(error@),
        }
    }
}

impl DaemonErrorModel {
    /// The error as people read it.
    pub open spec fn message(self) -> Seq<char> {
        match self {
            DaemonErrorModel::NonLoopback => "webhook listener must use a loopback IP address"@,
            DaemonErrorModel::RuntimePath(error) => error.message(),
            DaemonErrorModel::Io(detail) => detail,
            DaemonErrorModel::WebhookTask(detail) => "webhook server stopped unexpectedly: "@
                + detail,
            DaemonErrorModel::ControlTask(detail) => "control server stopped unexpectedly: "@
                + detail,
            DaemonErrorModel::Broker(error) => error.message(),
        }
    }
}

impl DaemonError {
    /// The error as people read it.
    pub fn message(&self) -> (result: String)
        ensures
            result@ == self@.message(),
    {
        match self {
            DaemonError::NonLoopback => "webhook listener must use a loopback IP address".to_owned(),
            DaemonError::RuntimePath(error) => error.message(),
            DaemonError::Io(detail) => detail.clone(),
            DaemonError::WebhookTask(detail) => with_detail(
                "webhook server stopped unexpectedly: ",
                detail.as_str(),
            ),
            DaemonError::ControlTask(detail) => with_detail(
                "control server stopped unexpectedly: ",
                detail.as_str(),
            ),
            DaemonError::Broker(error) => error.message(),
        }
    }
}

/// What is wrong with the settings before anything is opened, if anything is.
pub open spec fn start_problem(
    config: DaemonConfig,
    socket_path_limit: usize,
    has_parent: bool,
) -> Option<DaemonErrorModel> {
    if !config.webhook_listen.ip.loopback() {
        Some(DaemonErrorModel::NonLoopback)
    } else if utf8_len(config.control_socket@) > socket_path_limit {
        Some(
            DaemonErrorModel::RuntimePath(
                RuntimePathErrorModel::SocketPathTooLong(config.control_socket@),
            ),
        )
    } else if !has_parent {
        Some(DaemonErrorModel::Io("control socket has no parent"@))
    } else {
        None
    }
}

/// Checks the settings before anything is opened: the listener is one of this machine alone, and the
/// control socket has a path that fits and a directory.
pub fn check_start(config: &DaemonConfig, socket_path_limit: usize, has_parent: bool) -> (result:
    Result<(), DaemonError>)
    ensures
        match start_problem(*config, socket_path_limit, has_parent) {
            Some(problem) => result matches Err(error) && error@ == problem,
            None => result is Ok,
        },
{
    if !config.webhook_listen.ip.is_loopback() {
        return Err(DaemonError::NonLoopback);
    }
    if let Err(error) = validate_socket_path(config.control_socket.as_str(), socket_path_limit) {
        return Err(DaemonError::RuntimePath(error));
    }
    if !has_parent {
        return Err(DaemonError::Io("control socket has no parent".to_owned()));
    }
    Ok(())
}

/// The address of the webhook.
pub open spec fn endpoint_of(listen: Seq<char>) -> Seq<char> {
    "http://"@ + (listen + WEBHOOK_PATH@)
}

/// Writes the address of the webhook.
pub fn endpoint(listen: &str) -> (result: String)
    ensures
        result@ == endpoint_of(listen@),
{
    with_detail("http://", with_detail(listen, WEBHOOK_PATH).as_str())
}

/// What the daemon prints once it has started: where it listens, and where records go.
pub open spec fn banner_of(
    listen: Seq<char>,
    control_socket: Seq<char>,
    capture: CaptureStatusModel,
) -> Seq<Seq<char>> {
    seq![
        "nono-approval is ready"@,
        "  webhook: "@ + endpoint_of(listen),
        "  control: "@ + sanitized(control_socket),
    ] + (match capture {
        CaptureStatusModel::Enabled { path } => seq!["  debug capture: "@ + sanitized(path)],
        _ => Seq::empty(),
    })
}

/// Writes what the daemon prints once it has started.
pub fn banner(listen: &str, control_socket: &str, capture: &DebugCaptureStatus) -> (result: Vec<
    String,
>)
    ensures
        texts(result@) == banner_of(listen@, control_socket@, capture@),
{
    let mut lines: Vec<String> = Vec::new();
    lines.push("nono-approval is ready".to_owned());
    lines.push(with_detail("  webhook: ", endpoint(listen).as_str()));
    lines.push(with_detail("  control: ", sanitize(control_socket).as_str()));
    if let DebugCaptureStatus::Enabled { path } = capture {
        lines.push(with_detail("  debug capture: ", sanitize(path.as_str()).as_str()));
    }
    assert(texts(lines@) =~= banner_of(listen@, control_socket@, capture@));
    lines
}

/// How a server came to its end.
#[derive(Debug)]
pub enum TaskResult {
    Finished,
    Failed(String),
    Lost(String),
}

impl TaskResult {
    /// What is told of the end of a server.
    pub open spec fn text(self) -> Seq<char> {
        match self {
            TaskResult::Finished => "server exited"@,
            TaskResult::Failed(detail) => detail@,
            TaskResult::Lost(detail) => detail@,
        }
    }
}

/// Writes what is told of the end of a server.
pub fn format_task_result(result: TaskResult) -> (written: String)
    ensures
        written@ == result.text(),
{
    match result {
        TaskResult::Finished => "server exited".to_owned(),
        TaskResult::Failed(detail) => detail,
        TaskResult::Lost(detail) => detail,
    }
}

/// What ended a run.
#[derive(Debug)]
pub enum RunEnd {
    Signal,
    SignalFailed(String),
    Webhook(TaskResult),
    Control(TaskResult),
}

/// The outcome of a run: only a signal ends it well.
pub fn run(end: RunEnd) -> (result: Result<(), DaemonError>)
    ensures
        match end {
            RunEnd::Signal => result is Ok,
            RunEnd::SignalFailed(detail) => result matches Err(error) && error@
                == DaemonErrorModel::Io(detail@),
            RunEnd::Webhook(task) => result matches Err(error) && error@
                == DaemonErrorModel::WebhookTask(task.text()),
            RunEnd::Control(task) => result matches Err(error) && error@
                == DaemonErrorModel::ControlTask(task.text()),
        },
{
    match end {
        RunEnd::Signal => Ok(()),
        RunEnd::SignalFailed(detail) => Err(DaemonError::Io(detail)),
        RunEnd::Webhook(task) => Err(DaemonError::WebhookTask(format_task_result(task))),
        RunEnd::Control(task) => Err(DaemonError::ControlTask(format_task_result(task))),
    }
}

// ---------------------------------------------------------------------------
// Laws
// ---------------------------------------------------------------------------

/// The daemon starts exactly if it listens on this machine alone and its control socket has a path
/// that fits and a directory; the first of these that fails is told.
pub proof fn the_daemon_starts_on_this_machine_alone(
    config: DaemonConfig,
    socket_path_limit: usize,
    has_parent: bool,
)
    ensures
        ({
            let problem = start_problem(config, socket_path_limit, has_parent);
            let local = config.webhook_listen.ip.loopback();
            let fits = utf8_len(config.control_socket@) <= socket_path_limit;
            &&& problem is None <==> local && fits && has_parent
            &&& !local <==> problem is Some && problem->0 is NonLoopback
            &&& local && !fits ==> problem == Some(
                DaemonErrorModel::RuntimePath(
                    RuntimePathErrorModel::SocketPathTooLong(config.control_socket@),
                ),
            )
            &&& local && fits && !has_parent ==> problem == Some(
                DaemonErrorModel::Io("control socket has no parent"@),
            )
        }),
{
}

/// What is printed at the start is the address of the webhook, the control socket in visible form,
/// and the file of debug capture exactly while it is on.
pub proof fn the_start_is_announced(
    listen: Seq<char>,
    control_socket: Seq<char>,
    capture: CaptureStatusModel,
)
    ensures
        ({
            let lines = banner_of(listen, control_socket, capture);
            &&& lines.len() == if capture is Enabled {
                4int
            } else {
                3int
            }
            &&& lines[0] == "nono-approval is ready"@
            &&& lines[1] == "  webhook: "@ + ("http://"@ + (listen + "/v1/webhooks/approval"@))
            &&& lines[2] == "  control: "@ + sanitized(control_socket)
            &&& capture matches CaptureStatusModel::Enabled { path } ==> lines[3]
                == "  debug capture: "@ + sanitized(path)
        }),
        endpoint_of(listen) == "http://"@ + (listen + "/v1/webhooks/approval"@),
{
}

/// What ended the daemon is told in its own words.
pub proof fn the_end_is_told(detail: Seq<char>, result: TaskResult)
    ensures
        result is Finished ==> result.text() == "server exited"@,
        result matches TaskResult::Failed(text) ==> result.text() == text@,
        result matches TaskResult::Lost(text) ==> result.text() == text@,
        DaemonErrorModel::NonLoopback.message()
            == "webhook listener must use a loopback IP address"@,
        DaemonErrorModel::Io(detail).message() == detail,
        DaemonErrorModel::WebhookTask(detail).message() == "webhook server stopped unexpectedly: "@
            + detail,
        DaemonErrorModel::ControlTask(detail).message() == "control server stopped unexpectedly: "@
            + detail,
{
}

/// Only a signal ends the daemon well.
pub proof fn only_a_signal_ends_well(end: RunEnd, result: Result<(), DaemonError>)
    requires
        call_ensures(run, (end,), result),
    ensures
        result is Ok <==> end is Signal,
        end is Webhook ==> (result->Err_0)@ is WebhookTask,
        end is Control ==> (result->Err_0)@ is ControlTask,
        end is SignalFailed ==> (result->Err_0)@ is Io,
{
}

/// The built-in settings are those of the broker and the webhook, for the address and the socket
/// that are given, without debug capture.
pub proof fn the_built_in_settings_capture_nothing(
    listen: ListenAddr,
    socket: String,
    config: DaemonConfig,
)
    requires
        call_ensures(DaemonConfig::new, (listen, socket), config),
    ensures
        config.webhook_listen == listen,
        config.control_socket == socket,
        config.debug_capture is None,
        config.broker.request_timeout == 270 * 1000000000,
        config.broker.max_pending == 64,
        config.broker.max_per_session == 8,
        config.broker.tombstone_limit == 1024,
        config.broker.tombstone_ttl == 600 * 1000000000,
        config.max_body_bytes == 256 * 1024,
{
}

} // verus!
