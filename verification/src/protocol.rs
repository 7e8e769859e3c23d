//! The webhook protocol: approval requests as they arrive and decisions as they leave.
use vstd::prelude::*;

use crate::display::{
    build_detail, detail_json_len, detail_of, ApprovalDetailContent, DetailModel, MAX_DETAIL_BYTES,
};
use crate::text::{decimal, decimal_text, text_option, texts, with_detail};

verus! {

/// The largest webhook body accepted by default: 256 KiB.
pub const DEFAULT_MAX_BODY_BYTES: usize = 262144;

/// The version of the wire format this library understands.
pub const WIRE_ADAPTER_VERSION: u32 = 1;

/// The component that asked for an approval.
#[derive(Clone, Copy, Debug, PartialEq, Eq, Structural)]
pub enum SourceKind {
    ToolSandbox,
    Proxy,
    Capability,
    Network,
}

impl SourceKind {
    /// The name of the kind on the wire.
    pub open spec fn name(self) -> Seq<char> {
        match self {
            SourceKind::ToolSandbox => "tool_sandbox"@,
            SourceKind::Proxy => "proxy"@,
            SourceKind::Capability => "capability"@,
            SourceKind::Network => "network"@,
        }
    }

    /// The name of the kind on the wire.
    pub fn as_str(&self) -> (result: &'static str)
        ensures
            result@ == self.name(),
    {
        match self {
            SourceKind::ToolSandbox => "tool_sandbox",
            SourceKind::Proxy => "proxy",
            SourceKind::Capability => "capability",
            SourceKind::Network => "network",
        }
    }
}

/// The access to a path that a capability request asks for.
#[derive(Clone, Copy, Debug, PartialEq, Eq, Structural)]
pub enum AccessMode {
    Read,
    Write,
    ReadWrite,
}

impl AccessMode {
    /// The mode as people read it.
    pub open spec fn name(self) -> Seq<char> {
        match self {
            AccessMode::Read => "read"@,
            AccessMode::Write => "write"@,
            AccessMode::ReadWrite => "read+write"@,
        }
    }

    /// The mode as people read it.
    pub fn as_str(&self) -> (result: &'static str)
        ensures
            result@ == self.name(),
    {
        match self {
            AccessMode::Read => "read",
            AccessMode::Write => "write",
            AccessMode::ReadWrite => "read+write",
        }
    }
}

/// The transport of a network request.
#[derive(Clone, Copy, Debug, PartialEq, Eq, Structural)]
pub enum NetworkProtocol {
    Tcp,
    Udp,
}

impl NetworkProtocol {
    /// The transport as people read it.
    pub open spec fn name(self) -> Seq<char> {
        match self {
            NetworkProtocol::Tcp => "tcp"@,
            NetworkProtocol::Udp => "udp"@,
        }
    }

    /// The transport as people read it.
    pub fn as_str(&self) -> (result: &'static str)
        ensures
            result@ == self.name(),
    {
        match self {
            NetworkProtocol::Tcp => "tcp",
            NetworkProtocol::Udp => "udp",
        }
    }
}

/// An approval request of a kind this library knows.
#[derive(Debug, PartialEq, Eq)]
pub enum KnownApprovalRequest {
    Command {
        request_id: String,
        command: String,
        args: Vec<String>,
        caller: String,
        intercept_rule: String,
        reason: Option<String>,
        child_pid: u32,
        session_id: String,
    },
    Endpoint {
        request_id: String,
        route_id: String,
        upstream: String,
        method: String,
        path: String,
        rule_label: String,
        reason: Option<String>,
        child_pid: u32,
        session_id: String,
    },
    Capability {
        request_id: String,
        path: String,
        access: AccessMode,
        reason: Option<String>,
        child_pid: u32,
        session_id: String,
    },
    Network {
        request_id: String,
        host: String,
        port: u16,
        protocol: NetworkProtocol,
        resolved_ips: Vec<String>,
        reason: Option<String>,
        child_pid: u32,
        session_id: String,
    },
}

/// The contents of a [`KnownApprovalRequest`].
pub enum RequestModel {
    Command {
        request_id: Seq<char>,
        command: Seq<char>,
        args: Seq<Seq<char>>,
        caller: Seq<char>,
        intercept_rule: Seq<char>,
        reason: Option<Seq<char>>,
        child_pid: u32,
        session_id: Seq<char>,
    },
    Endpoint {
        request_id: Seq<char>,
        route_id: Seq<char>,
        upstream: Seq<char>,
        method: Seq<char>,
        path: Seq<char>,
        rule_label: Seq<char>,
        reason: Option<Seq<char>>,
        child_pid: u32,
        session_id: Seq<char>,
    },
    Capability {
        request_id: Seq<char>,
        path: Seq<char>,
        access: AccessMode,
        reason: Option<Seq<char>>,
        child_pid: u32,
        session_id: Seq<char>,
    },
    Network {
        request_id: Seq<char>,
        host: Seq<char>,
        port: u16,
        protocol: NetworkProtocol,
        resolved_ips: Seq<Seq<char>>,
        reason: Option<Seq<char>>,
        child_pid: u32,
        session_id: Seq<char>,
    },
}

impl View for KnownApprovalRequest {
    type V = RequestModel;

    open spec fn view(&self) -> RequestModel {
        match *self {
            KnownApprovalRequest::Command {
                request_id,
                command,
                args,
                caller,
                intercept_rule,
                reason,
                child_pid,
                session_id,
            } => RequestModel::Command {
                request_id: request_id@,
                command: command@,
                args: texts(args@),
                caller: caller@,
                intercept_rule: intercept_rule@,
                reason: text_option(reason),
                child_pid,
                session_id: session_id@,
            },
            KnownApprovalRequest::Endpoint {
                request_id,
                route_id,
                upstream,
                method,
                path,
                rule_label,
                reason,
                child_pid,
                session_id,
            } => RequestModel::Endpoint {
                request_id: request_id@,
                route_id: route_id@,
                upstream: upstream@,
                method: method@,
                path: path@,
                rule_label: rule_label@,
                reason: text_option(reason),
                child_pid,
                session_id: session_id@,
            },
            KnownApprovalRequest::Capability {
                request_id,
                path,
                access,
                reason,
                child_pid,
                session_id,
            } => RequestModel::Capability {
                request_id: request_id@,
                path: path@,
                access,
                reason: text_option(reason),
                child_pid,
                session_id: session_id@,
            },
            KnownApprovalRequest::Network {
                request_id,
                host,
                port,
                protocol,
                resolved_ips,
                reason,
                child_pid,
                session_id,
            } => RequestModel::Network {
                request_id: request_id@,
                host: host@,
                port,
                protocol,
                resolved_ips: texts(resolved_ips@),
                reason: text_option(reason),
                child_pid,
                session_id: session_id@,
            },
        }
    }
}

impl RequestModel {
    /// The name of the request's kind.
    pub open spec fn capability_type(self) -> Seq<char> {
        match self {
            RequestModel::Command { .. } => "command"@,
            RequestModel::Endpoint { .. } => "endpoint"@,
            RequestModel::Capability { .. } => "capability"@,
            RequestModel::Network { .. } => "network"@,
        }
    }

    /// The identifier the sender gave to the request.
    pub open spec fn request_id(self) -> Seq<char> {
        match self {
            RequestModel::Command { request_id, .. } => request_id,
            RequestModel::Endpoint { request_id, .. } => request_id,
            RequestModel::Capability { request_id, .. } => request_id,
            RequestModel::Network { request_id, .. } => request_id,
        }
    }

    /// The session the request belongs to.
    pub open spec fn session_id(self) -> Seq<char> {
        match self {
            RequestModel::Command { session_id, .. } => session_id,
            RequestModel::Endpoint { session_id, .. } => session_id,
            RequestModel::Capability { session_id, .. } => session_id,
            RequestModel::Network { session_id, .. } => session_id,
        }
    }

    /// The process the request is made for.
    pub open spec fn child_pid(self) -> u32 {
        match self {
            RequestModel::Command { child_pid, .. } => child_pid,
            RequestModel::Endpoint { child_pid, .. } => child_pid,
            RequestModel::Capability { child_pid, .. } => child_pid,
            RequestModel::Network { child_pid, .. } => child_pid,
        }
    }

    /// The component that makes requests of this kind.
    pub open spec fn source_kind(self) -> SourceKind {
        match self {
            RequestModel::Command { .. } => SourceKind::ToolSandbox,
            RequestModel::Endpoint { .. } => SourceKind::Proxy,
            RequestModel::Capability { .. } => SourceKind::Capability,
            RequestModel::Network { .. } => SourceKind::Network,
        }
    }

    /// The operation fields that must not be empty, each with its name, in the order of checking.
    pub open spec fn required_fields(self) -> Seq<(Seq<char>, Seq<char>)> {
        match self {
            RequestModel::Command { command, caller, intercept_rule, .. } => seq![
                (command, "command"@),
                (caller, "caller"@),
                (intercept_rule, "intercept_rule"@),
            ],
            RequestModel::Endpoint { route_id, upstream, method, path, rule_label, .. } => seq![
                (route_id, "route_id"@),
                (upstream, "upstream"@),
                (method, "method"@),
                (path, "path"@),
                (rule_label, "rule_label"@),
            ],
            RequestModel::Capability { path, .. } => seq![(path, "path"@)],
            RequestModel::Network { host, .. } => seq![(host, "host"@)],
        }
    }
}

impl KnownApprovalRequest {
    /// The name of the request's kind.
    pub fn capability_type(&self) -> (result: &'static str)
        ensures
            result@ == self@.capability_type(),
    {
        match self {
            KnownApprovalRequest::Command { .. } => "command",
            KnownApprovalRequest::Endpoint { .. } => "endpoint",
            KnownApprovalRequest::Capability { .. } => "capability",
            KnownApprovalRequest::Network { .. } => "network",
        }
    }

    /// The identifier the sender gave to the request.
    pub fn request_id(&self) -> (result: &str)
        ensures
            result@ == self@.request_id(),
            match *self {
                KnownApprovalRequest::Command { request_id, .. } => result@ == request_id@,
                KnownApprovalRequest::Endpoint { request_id, .. } => result@ == request_id@,
                KnownApprovalRequest::Capability { request_id, .. } => result@ == request_id@,
                KnownApprovalRequest::Network { request_id, .. } => result@ == request_id@,
            },
    {
        match self {
            KnownApprovalRequest::Command { request_id, .. } => request_id.as_str(),
            KnownApprovalRequest::Endpoint { request_id, .. } => request_id.as_str(),
            KnownApprovalRequest::Capability { request_id, .. } => request_id.as_str(),
            KnownApprovalRequest::Network { request_id, .. } => request_id.as_str(),
        }
    }

    /// The session the request belongs to.
    pub fn session_id(&self) -> (result: &str)
        ensures
            result@ == self@.session_id(),
            match *self {
                KnownApprovalRequest::Command { session_id, .. } => result@ == session_id@,
                KnownApprovalRequest::Endpoint { session_id, .. } => result@ == session_id@,
                KnownApprovalRequest::Capability { session_id, .. } => result@ == session_id@,
                KnownApprovalRequest::Network { session_id, .. } => result@ == session_id@,
            },
    {
        match self {
            KnownApprovalRequest::Command { session_id, .. } => session_id.as_str(),
            KnownApprovalRequest::Endpoint { session_id, .. } => session_id.as_str(),
            KnownApprovalRequest::Capability { session_id, .. } => session_id.as_str(),
            KnownApprovalRequest::Network { session_id, .. } => session_id.as_str(),
        }
    }

    /// The process the request is made for.
    pub fn child_pid(&self) -> (result: u32)
        ensures
            result == self@.child_pid(),
            match *self {
                KnownApprovalRequest::Command { child_pid, .. } => result == child_pid,
                KnownApprovalRequest::Endpoint { child_pid, .. } => result == child_pid,
                KnownApprovalRequest::Capability { child_pid, .. } => result == child_pid,
                KnownApprovalRequest::Network { child_pid, .. } => result == child_pid,
            },
    {
        match self {
            KnownApprovalRequest::Command { child_pid, .. } => *child_pid,
            KnownApprovalRequest::Endpoint { child_pid, .. } => *child_pid,
            KnownApprovalRequest::Capability { child_pid, .. } => *child_pid,
            KnownApprovalRequest::Network { child_pid, .. } => *child_pid,
        }
    }

    /// The component that makes requests of this kind.
    pub fn source_kind(&self) -> (result: SourceKind)
        ensures
            result == self@.source_kind(),
    {
        match self {
            KnownApprovalRequest::Command { .. } => SourceKind::ToolSandbox,
            KnownApprovalRequest::Endpoint { .. } => SourceKind::Proxy,
            KnownApprovalRequest::Capability { .. } => SourceKind::Capability,
            KnownApprovalRequest::Network { .. } => SourceKind::Network,
        }
    }
}

impl Clone for KnownApprovalRequest {
    fn clone(&self) -> (result: Self)
        ensures
            result@ == self@,
    {
        match self {
            KnownApprovalRequest::Command {
                request_id,
                command,
                args,
                caller,
                intercept_rule,
                reason,
                child_pid,
                session_id,
            } => {
                let copy = args.clone();
                assert(texts(copy@) =~= texts(args@));
                KnownApprovalRequest::Command {
                    request_id: request_id.clone(),
                    command: command.clone(),
                    args: copy,
                    caller: caller.clone(),
                    intercept_rule: intercept_rule.clone(),
                    reason: reason.clone(),
                    child_pid: *child_pid,
                    session_id: session_id.clone(),
                }
            },
            KnownApprovalRequest::Endpoint {
                request_id,
                route_id,
                upstream,
                method,
                path,
                rule_label,
                reason,
                child_pid,
                session_id,
            } => KnownApprovalRequest::Endpoint {
                request_id: request_id.clone(),
                route_id: route_id.clone(),
                upstream: upstream.clone(),
                method: method.clone(),
                path: path.clone(),
                rule_label: rule_label.clone(),
                reason: reason.clone(),
                child_pid: *child_pid,
                session_id: session_id.clone(),
            },
            KnownApprovalRequest::Capability {
                request_id,
                path,
                access,
                reason,
                child_pid,
                session_id,
            } => KnownApprovalRequest::Capability {
                request_id: request_id.clone(),
                path: path.clone(),
                access: *access,
                reason: reason.clone(),
                child_pid: *child_pid,
                session_id: session_id.clone(),
            },
            KnownApprovalRequest::Network {
                request_id,
                host,
                port,
                protocol,
                resolved_ips,
                reason,
                child_pid,
                session_id,
            } => {
                let copy = resolved_ips.clone();
                assert(texts(copy@) =~= texts(resolved_ips@));
                KnownApprovalRequest::Network {
                    request_id: request_id.clone(),
                    host: host.clone(),
                    port: *port,
                    protocol: *protocol,
                    resolved_ips: copy,
                    reason: reason.clone(),
                    child_pid: *child_pid,
                    session_id: session_id.clone(),
                }
            },
        }
    }
}

/// The answer to an approval request.
#[derive(Debug, PartialEq, Eq)]
pub enum WebhookDecision {
    Granted,
    Denied { reason: String },
}

/// The contents of a [`WebhookDecision`].
pub enum DecisionModel {
    Granted,
    Denied { reason: Seq<char> },
}

impl View for WebhookDecision {
    type V = DecisionModel;

    open spec fn view(&self) -> DecisionModel {
        match *self {
            WebhookDecision::Granted => DecisionModel::Granted,
            WebhookDecision::Denied { reason } => DecisionModel::Denied { reason: reason@ },
        }
    }
}

impl Clone for WebhookDecision {
    fn clone(&self) -> (result: Self)
        ensures
            result@ == self@,
    {
        match self {
            WebhookDecision::Granted => WebhookDecision::Granted,
            WebhookDecision::Denied { reason } => WebhookDecision::Denied {
                reason: reason.clone(),
            },
        }
    }
}

/// Denies with a fixed reason.
pub(crate) fn denied(reason: &str) -> (result: WebhookDecision)
    ensures
        result@ == (DecisionModel::Denied { reason: reason@ }),
{
    WebhookDecision::Denied { reason: reason.to_owned() }
}

/// A webhook request that passed every check.
#[derive(Debug)]
pub struct IncomingApproval {
    pub claimed_backend: String,
    pub raw_request: String,
    pub request: KnownApprovalRequest,
    pub detail: ApprovalDetailContent,
}

/// The contents of an [`IncomingApproval`].
pub struct IncomingModel {
    pub claimed_backend: Seq<char>,
    pub raw_request: Seq<char>,
    pub request: RequestModel,
    pub detail: DetailModel,
}

impl View for IncomingApproval {
    type V = IncomingModel;

    open spec fn view(&self) -> IncomingModel {
        IncomingModel {
            claimed_backend: self.claimed_backend@,
            raw_request: self.raw_request@,
            request: self.request@,
            detail: self.detail@,
        }
    }
}

impl Clone for IncomingApproval {
    fn clone(&self) -> (result: Self)
        ensures
            result@ == self@,
    {
        IncomingApproval {
            claimed_backend: self.claimed_backend.clone(),
            raw_request: self.raw_request.clone(),
            request: self.request.clone(),
            detail: self.detail.clone(),
        }
    }
}

/// A decoded webhook body: the envelope, and the request within it or the decoder's message.
pub struct Envelope {
    pub backend: String,
    pub raw_request: String,
    pub request: Result<KnownApprovalRequest, String>,
}

/// Why a webhook body was refused.
#[derive(Debug, PartialEq, Eq)]
pub enum ProtocolError {
    BodyTooLarge { limit: usize },
    InvalidJson(String),
    EmptyBackend,
    EmptyRequestId,
    EmptySessionId,
    EmptyField(&'static str),
    DetailTooLarge { limit: usize },
}

/// The contents of a [`ProtocolError`].
pub enum ProtocolErrorModel {
    BodyTooLarge { limit: usize },
    InvalidJson(Seq<char>),
    EmptyBackend,
    EmptyRequestId,
    EmptySessionId,
    EmptyField(Seq<char>),
    DetailTooLarge { limit: usize },
}

impl View for ProtocolError {
    type V = ProtocolErrorModel;

    open spec fn view(&self) -> ProtocolErrorModel {
        match *self {
            ProtocolError::BodyTooLarge { limit } => ProtocolErrorModel::BodyTooLarge { limit },
            ProtocolError::InvalidJson(detail) => ProtocolErrorModel::InvalidJson(detail@),
            ProtocolError::EmptyBackend => ProtocolErrorModel::EmptyBackend,
            ProtocolError::EmptyRequestId => ProtocolErrorModel::EmptyRequestId,
            ProtocolError::EmptySessionId => ProtocolErrorModel::EmptySessionId,
            ProtocolError::EmptyField(name) => ProtocolErrorModel::EmptyField(name@),
            ProtocolError::DetailTooLarge { limit } => ProtocolErrorModel::DetailTooLarge { limit },
        }
    }
}

impl ProtocolErrorModel {
    /// The error as people read it.
    pub open spec fn message(self) -> Seq<char> {
        match self {
            ProtocolErrorModel::BodyTooLarge { limit } => "request body exceeds "@ + (decimal(
                limit as nat,
            ) + " bytes"@),
            ProtocolErrorModel::InvalidJson(detail) => "invalid webhook JSON: "@ + detail,
            ProtocolErrorModel::EmptyBackend => "backend must not be empty"@,
            ProtocolErrorModel::EmptyRequestId => "request_id must not be empty"@,
            ProtocolErrorModel::EmptySessionId => "session_id must not be empty"@,
            ProtocolErrorModel::EmptyField(name) => "required request field must not be empty: "@
                + name,
            ProtocolErrorModel::DetailTooLarge { limit } => "approval detail exceeds "@ + (decimal(
                limit as nat,
            ) + " bytes"@),
        }
    }
}

impl ProtocolError {
    /// The error as people read it.
    pub fn message(&self) -> (result: String)
        ensures
            result@ == self@.message(),
    {
        match self {
            ProtocolError::BodyTooLarge { limit } => {
                let size = with_detail(decimal_text(*limit as u64).as_str(), " bytes");
                with_detail("request body exceeds ", size.as_str())
            },
            ProtocolError::InvalidJson(detail) => with_detail(
                "invalid webhook JSON: ",
                detail.as_str(),
            ),
            ProtocolError::EmptyBackend => "backend must not be empty".to_owned(),
            ProtocolError::EmptyRequestId => "request_id must not be empty".to_owned(),
            ProtocolError::EmptySessionId => "session_id must not be empty".to_owned(),
            ProtocolError::EmptyField(name) => with_detail(
                "required request field must not be empty: ",
                name,
            ),
            ProtocolError::DetailTooLarge { limit } => {
                let size = with_detail(decimal_text(*limit as u64).as_str(), " bytes");
                with_detail("approval detail exceeds ", size.as_str())
            },
        }
    }
}

/// The first required field that is empty, by name.
pub open spec fn first_empty_field(fields: Seq<(Seq<char>, Seq<char>)>) -> Option<Seq<char>>
    decreases fields.len(),
{
    if fields.len() == 0 {
        None
    } else if fields[0].0.len() == 0 {
        Some(fields[0].1)
    } else {
        first_empty_field(fields.drop_first())
    }
}

/// What [`parse_webhook_body`] makes of a body of `body_len` bytes that decoded to `envelope`.
pub open spec fn parsed_body(
    body_len: nat,
    max_body_bytes: usize,
    max_detail_bytes: usize,
    envelope: Result<Envelope, String>,
) -> Result<IncomingModel, ProtocolErrorModel> {
    if body_len > max_body_bytes {
        Err(ProtocolErrorModel::BodyTooLarge { limit: max_body_bytes })
    } else {
        match envelope {
            Err(detail) => Err(ProtocolErrorModel::InvalidJson(detail@)),
            Ok(envelope) => if envelope.backend@.len() == 0 {
                Err(ProtocolErrorModel::EmptyBackend)
            } else {
                match envelope.request {
                    Err(detail) => Err(ProtocolErrorModel::InvalidJson(detail@)),
                    Ok(request) => if request@.request_id().len() == 0 {
                        Err(ProtocolErrorModel::EmptyRequestId)
                    } else if request@.session_id().len() == 0 {
                        Err(ProtocolErrorModel::EmptySessionId)
                    } else if first_empty_field(request@.required_fields()) is Some {
                        Err(
                            ProtocolErrorModel::EmptyField(
                                first_empty_field(request@.required_fields())->0,
                            ),
                        )
                    } else if detail_json_len(detail_of(request@)) > max_detail_bytes {
                        Err(ProtocolErrorModel::DetailTooLarge { limit: max_detail_bytes })
                    } else {
                        Ok(
                            IncomingModel {
                                claimed_backend: envelope.backend@,
                                raw_request: envelope.raw_request@,
                                request: request@,
                                detail: detail_of(request@),
                            },
                        )
                    },
                }
            },
        }
    }
}

/// Finds the first required field that is empty.
fn validate_required_fields(request: &KnownApprovalRequest) -> (result: Result<(), ProtocolError>)
    ensures
        match first_empty_field(request@.required_fields()) {
            Some(name) => result matches Err(error) && error@ == ProtocolErrorModel::EmptyField(
                name,
            ),
            None => result is Ok,
        },
{
    proof {
        reveal_with_fuel(first_empty_field, 6);
    }
    let mut fields: Vec<(&str, &'static str)> = Vec::new();
    match request {
        KnownApprovalRequest::Command { command, caller, intercept_rule, .. } => {
            fields.push((command.as_str(), "command"));
            fields.push((caller.as_str(), "caller"));
            fields.push((intercept_rule.as_str(), "intercept_rule"));
        },
        KnownApprovalRequest::Endpoint { route_id, upstream, method, path, rule_label, .. } => {
            fields.push((route_id.as_str(), "route_id"));
            fields.push((upstream.as_str(), "upstream"));
            fields.push((method.as_str(), "method"));
            fields.push((path.as_str(), "path"));
            fields.push((rule_label.as_str(), "rule_label"));
        },
        KnownApprovalRequest::Capability { path, .. } => {
            fields.push((path.as_str(), "path"));
        },
        KnownApprovalRequest::Network { host, .. } => {
            fields.push((host.as_str(), "host"));
        },
    }
    let ghost wanted = request@.required_fields();
    assert(wanted.skip(0) =~= wanted);
    for i in 0..fields.len()
        invariant
            wanted == request@.required_fields(),
            fields@.len() == wanted.len(),
            forall|j: int|
                0 <= j < wanted.len() ==> #[trigger] wanted[j] == (fields@[j].0@, fields@[j].1@),
            first_empty_field(wanted) == first_empty_field(wanted.skip(i as int)),
    {
        assert(wanted.skip(i as int)[0] == wanted[i as int]);
        let (value, name) = fields[i];
        if value.is_empty() {
            return Err(ProtocolError::EmptyField(name));
        }
        assert(wanted.skip(i as int).drop_first() =~= wanted.skip(i + 1));
    }
    Ok(())
}

/// Checks a webhook body of which the JSON decoder made `envelope`, and builds its detail.
///
/// The checks come in this order: the size of the body, the envelope's JSON, the backend, the
/// request's JSON, its two identifiers, its required fields, and the size of the detail.
pub fn parse_webhook_body(
    body: &[u8],
    max_body_bytes: usize,
    max_detail_bytes: usize,
    envelope: Result<Envelope, String>,
) -> (result: Result<IncomingApproval, ProtocolError>)
    ensures
        match parsed_body(body@.len(), max_body_bytes, max_detail_bytes, envelope) {
            Ok(incoming) => result matches Ok(value) && value@ == incoming,
            Err(refusal) => result matches Err(error) && error@ == refusal,
        },
        result matches Ok(incoming) ==> crate::display::is_clean_detail(incoming@.detail),
{
    if body.len() > max_body_bytes {
        return Err(ProtocolError::BodyTooLarge { limit: max_body_bytes });
    }
    let envelope = match envelope {
        Ok(envelope) => envelope,
        Err(detail) => return Err(ProtocolError::InvalidJson(detail)),
    };
    if envelope.backend.as_str().is_empty() {
        return Err(ProtocolError::EmptyBackend);
    }
    let request = match envelope.request {
        Ok(request) => request,
        Err(detail) => return Err(ProtocolError::InvalidJson(detail)),
    };
    if request.request_id().is_empty() {
        return Err(ProtocolError::EmptyRequestId);
    }
    if request.session_id().is_empty() {
        return Err(ProtocolError::EmptySessionId);
    }
    if let Err(error) = validate_required_fields(&request) {
        return Err(error);
    }
    let detail = build_detail(&request);
    if detail.serialized_len() > max_detail_bytes {
        return Err(ProtocolError::DetailTooLarge { limit: max_detail_bytes });
    }
    Ok(
        IncomingApproval {
            claimed_backend: envelope.backend,
            raw_request: envelope.raw_request,
            request,
            detail,
        },
    )
}

/// [`parse_webhook_body`] with the built-in limits.
pub fn parse_default_webhook_body(body: &[u8], envelope: Result<Envelope, String>) -> (result:
    Result<IncomingApproval, ProtocolError>)
    ensures
        match parsed_body(body@.len(), DEFAULT_MAX_BODY_BYTES, MAX_DETAIL_BYTES, envelope) {
            Ok(incoming) => result matches Ok(value) && value@ == incoming,
            Err(refusal) => result matches Err(error) && error@ == refusal,
        },
        result matches Ok(incoming) ==> crate::display::is_clean_detail(incoming@.detail),
{
    parse_webhook_body(body, DEFAULT_MAX_BODY_BYTES, MAX_DETAIL_BYTES, envelope)
}

// ---------------------------------------------------------------------------
// Laws
// ---------------------------------------------------------------------------

/// Every request is known by the identifiers in its own fields, whatever its kind, and each kind
/// comes from its own component.
pub proof fn requests_are_identified_by_their_fields(request: RequestModel)
    ensures
        request matches RequestModel::Command { request_id, session_id, child_pid, .. } ==> {
            &&& request.request_id() == request_id
            &&& request.session_id() == session_id
            &&& request.child_pid() == child_pid
        },
        request matches RequestModel::Endpoint { request_id, session_id, child_pid, .. } ==> {
            &&& request.request_id() == request_id
            &&& request.session_id() == session_id
            &&& request.child_pid() == child_pid
        },
        request matches RequestModel::Capability { request_id, session_id, child_pid, .. } ==> {
            &&& request.request_id() == request_id
            &&& request.session_id() == session_id
            &&& request.child_pid() == child_pid
        },
        request matches RequestModel::Network { request_id, session_id, child_pid, .. } ==> {
            &&& request.request_id() == request_id
            &&& request.session_id() == session_id
            &&& request.child_pid() == child_pid
        },
        request is Command <==> request.source_kind() == SourceKind::ToolSandbox,
        request is Endpoint <==> request.source_kind() == SourceKind::Proxy,
        request is Capability <==> request.source_kind() == SourceKind::Capability,
        request is Network <==> request.source_kind() == SourceKind::Network,
{
}

/// Each kind of request has a name of its own.
pub proof fn kinds_have_their_own_names(request: RequestModel)
    ensures
        request is Command <==> request.capability_type() == "command"@,
        request is Endpoint <==> request.capability_type() == "endpoint"@,
        request is Capability <==> request.capability_type() == "capability"@,
        request is Network <==> request.capability_type() == "network"@,
{
    reveal_strlit("command");
    reveal_strlit("endpoint");
    reveal_strlit("capability");
    reveal_strlit("network");
    assert("command"@[0] == 'c' && "endpoint"@[0] == 'e' && "capability"@[1] == 'a');
    assert("command"@[1] == 'o' && "network"@[0] == 'n' && "capability"@[0] == 'c');
}

/// Sources, access modes and transports are told apart by their names.
pub proof fn names_tell_values_apart(
    source: SourceKind,
    access: AccessMode,
    protocol: NetworkProtocol,
)
    ensures
        source is ToolSandbox <==> source.name() == "tool_sandbox"@,
        source is Proxy <==> source.name() == "proxy"@,
        source is Capability <==> source.name() == "capability"@,
        source is Network <==> source.name() == "network"@,
        access is Read <==> access.name() == "read"@,
        access is Write <==> access.name() == "write"@,
        access is ReadWrite <==> access.name() == "read+write"@,
        protocol is Tcp <==> protocol.name() == "tcp"@,
        protocol is Udp <==> protocol.name() == "udp"@,
{
    reveal_strlit("tool_sandbox");
    reveal_strlit("proxy");
    reveal_strlit("capability");
    reveal_strlit("network");
    reveal_strlit("read");
    reveal_strlit("write");
    reveal_strlit("read+write");
    reveal_strlit("tcp");
    reveal_strlit("udp");
    assert("tool_sandbox"@[0] == 't' && "proxy"@[0] == 'p');
    assert("capability"@[0] == 'c' && "network"@[0] == 'n');
    assert("read"@[0] == 'r' && "write"@[0] == 'w' && "read+write"@[0] == 'r');
    assert("read"@.len() == 4 && "read+write"@.len() == 10);
    assert("tcp"@[0] == 't' && "udp"@[0] == 'u');
}

/// A request and a decision are seen as what their fields hold.
pub proof fn contents_are_seen_field_by_field(
    request: KnownApprovalRequest,
    decision: WebhookDecision,
    incoming: IncomingApproval,
)
    ensures
        request matches KnownApprovalRequest::Command {
            request_id,
            command,
            args,
            caller,
            intercept_rule,
            reason,
            child_pid,
            session_id,
        } ==> request@ == (RequestModel::Command {
            request_id: request_id@,
            command: command@,
            args: texts(args@),
            caller: caller@,
            intercept_rule: intercept_rule@,
            reason: text_option(reason),
            child_pid,
            session_id: session_id@,
        }),
        request matches KnownApprovalRequest::Endpoint {
            request_id,
            route_id,
            upstream,
            method,
            path,
            rule_label,
            reason,
            child_pid,
            session_id,
        } ==> request@ == (RequestModel::Endpoint {
            request_id: request_id@,
            route_id: route_id@,
            upstream: upstream@,
            method: method@,
            path: path@,
            rule_label: rule_label@,
            reason: text_option(reason),
            child_pid,
            session_id: session_id@,
        }),
        request matches KnownApprovalRequest::Capability {
            request_id,
            path,
            access,
            reason,
            child_pid,
            session_id,
        } ==> request@ == (RequestModel::Capability {
            request_id: request_id@,
            path: path@,
            access,
            reason: text_option(reason),
            child_pid,
            session_id: session_id@,
        }),
        request matches KnownApprovalRequest::Network {
            request_id,
            host,
            port,
            protocol,
            resolved_ips,
            reason,
            child_pid,
            session_id,
        } ==> request@ == (RequestModel::Network {
            request_id: request_id@,
            host: host@,
            port,
            protocol,
            resolved_ips: texts(resolved_ips@),
            reason: text_option(reason),
            child_pid,
            session_id: session_id@,
        }),
        decision is Granted <==> decision@ is Granted,
        decision matches WebhookDecision::Denied { reason } ==> decision@ == (
        DecisionModel::Denied { reason: reason@ }),
        incoming@.claimed_backend == incoming.claimed_backend@,
        incoming@.raw_request == incoming.raw_request@,
        incoming@.request == incoming.request@,
        incoming@.detail == incoming.detail@,
{
}

/// Whether every field that a request of its kind cannot do without holds something.
pub open spec fn is_filled_in(request: RequestModel) -> bool {
    match request {
        RequestModel::Command { command, caller, intercept_rule, .. } => command.len() > 0
            && caller.len() > 0 && intercept_rule.len() > 0,
        RequestModel::Endpoint { route_id, upstream, method, path, rule_label, .. } =>
            route_id.len() > 0 && upstream.len() > 0 && method.len() > 0 && path.len() > 0
                && rule_label.len() > 0,
        RequestModel::Capability { path, .. } => path.len() > 0,
        RequestModel::Network { host, .. } => host.len() > 0,
    }
}

/// A body is accepted exactly if it is within its limit, decodes, names its backend, identifies
/// itself, is filled in, and has a detail within its limit. It is then taken over as it came.
pub proof fn only_complete_bodies_are_accepted(
    body_len: nat,
    max_body_bytes: usize,
    max_detail_bytes: usize,
    envelope: Result<Envelope, String>,
)
    ensures
        ({
            let parsed = parsed_body(body_len, max_body_bytes, max_detail_bytes, envelope);
            &&& parsed is Ok <==> body_len <= max_body_bytes && (envelope matches Ok(read)
                && read.backend@.len() > 0 && (read.request matches Ok(request)
                && request@.request_id().len() > 0 && request@.session_id().len() > 0
                && is_filled_in(request@) && detail_json_len(detail_of(request@))
                <= max_detail_bytes))
            &&& parsed matches Ok(incoming) ==> {
                &&& incoming.claimed_backend == (envelope->Ok_0).backend@
                &&& incoming.raw_request == (envelope->Ok_0).raw_request@
                &&& incoming.request == ((envelope->Ok_0).request->Ok_0)@
                &&& incoming.detail == detail_of(incoming.request)
            }
        }),
{
    reveal_with_fuel(first_empty_field, 6);
    if envelope is Ok && (envelope->Ok_0).request is Ok {
        lemma_filled_in(((envelope->Ok_0).request->Ok_0)@);
    }
}

proof fn lemma_filled_in(request: RequestModel)
    ensures
        first_empty_field(request.required_fields()) is None <==> is_filled_in(request),
{
    reveal_with_fuel(first_empty_field, 6);
    let fields = request.required_fields();
    match request {
        RequestModel::Command { command, caller, intercept_rule, .. } => {
            assert(fields[0].0 == command && fields.drop_first()[0].0 == caller);
            assert(fields.drop_first().drop_first()[0].0 == intercept_rule);
        },
        RequestModel::Endpoint { route_id, upstream, method, path, rule_label, .. } => {
            let second = fields.drop_first();
            let third = second.drop_first();
            let fourth = third.drop_first();
            assert(fields[0].0 == route_id && second[0].0 == upstream && third[0].0 == method);
            assert(fourth[0].0 == path && fourth.drop_first()[0].0 == rule_label);
        },
        RequestModel::Capability { path, .. } => {
            assert(fields[0].0 == path);
        },
        RequestModel::Network { host, .. } => {
            assert(fields[0].0 == host);
        },
    }
}

/// A body that is refused is told its first fault: its size, its JSON, its backend, the JSON of the
/// request, its identifiers, a field that is missing, or the size of its detail, in this order.
pub proof fn refused_bodies_are_told_their_first_fault(
    body_len: nat,
    max_body_bytes: usize,
    max_detail_bytes: usize,
    read: Envelope,
    request: KnownApprovalRequest,
    detail: String,
)
    requires
        body_len <= max_body_bytes,
        read.request == Ok::<KnownApprovalRequest, String>(request),
    ensures
        forall|size: nat, envelope: Result<Envelope, String>|
            size > max_body_bytes ==> #[trigger] parsed_body(
                size,
                max_body_bytes,
                max_detail_bytes,
                envelope,
            ) == Err::<IncomingModel, ProtocolErrorModel>(
                ProtocolErrorModel::BodyTooLarge { limit: max_body_bytes },
            ),
        parsed_body(body_len, max_body_bytes, max_detail_bytes, Err(detail)) == Err::<
            IncomingModel,
            ProtocolErrorModel,
        >(ProtocolErrorModel::InvalidJson(detail@)),
        forall|envelope: Envelope|
            envelope.backend@.len() == 0 ==> #[trigger] parsed_body(
                body_len,
                max_body_bytes,
                max_detail_bytes,
                Ok(envelope),
            ) == Err::<IncomingModel, ProtocolErrorModel>(ProtocolErrorModel::EmptyBackend),
        forall|envelope: Envelope|
            envelope.backend@.len() > 0 && envelope.request == Err::<KnownApprovalRequest, String>(
                detail,
            ) ==> #[trigger] parsed_body(
                body_len,
                max_body_bytes,
                max_detail_bytes,
                Ok(envelope),
            ) == Err::<IncomingModel, ProtocolErrorModel>(
                ProtocolErrorModel::InvalidJson(detail@),
            ),
        read.backend@.len() > 0 ==> ({
            let told = parsed_body(body_len, max_body_bytes, max_detail_bytes, Ok(read));
            if request@.request_id().len() == 0 {
                told == Err::<IncomingModel, ProtocolErrorModel>(ProtocolErrorModel::EmptyRequestId)
            } else if request@.session_id().len() == 0 {
                told == Err::<IncomingModel, ProtocolErrorModel>(ProtocolErrorModel::EmptySessionId)
            } else if !is_filled_in(request@) {
                told is Err && told->Err_0 is EmptyField
            } else if detail_json_len(detail_of(request@)) > max_detail_bytes {
                told == Err::<IncomingModel, ProtocolErrorModel>(
                    ProtocolErrorModel::DetailTooLarge { limit: max_detail_bytes },
                )
            } else {
                told is Ok
            }
        }),
{
    lemma_filled_in(request@);
}

/// The field that is told to be empty is the first empty one, by its name on the wire.
pub proof fn empty_fields_are_told_by_name(request: RequestModel)
    ensures
        ({
            let told = first_empty_field(request.required_fields());
            match request {
                RequestModel::Command { command, caller, intercept_rule, .. } => {
                    &&& command.len() == 0 ==> told == Some("command"@)
                    &&& command.len() > 0 && caller.len() == 0 ==> told == Some("caller"@)
                    &&& command.len() > 0 && caller.len() > 0 && intercept_rule.len() == 0 ==> told
                        == Some("intercept_rule"@)
                },
                RequestModel::Endpoint { route_id, upstream, method, path, rule_label, .. } => {
                    &&& route_id.len() == 0 ==> told == Some("route_id"@)
                    &&& route_id.len() > 0 && upstream.len() == 0 ==> told == Some("upstream"@)
                    &&& route_id.len() > 0 && upstream.len() > 0 && method.len() == 0 ==> told
                        == Some("method"@)
                    &&& route_id.len() > 0 && upstream.len() > 0 && method.len() > 0 && path.len()
                        == 0 ==> told == Some("path"@)
                    &&& route_id.len() > 0 && upstream.len() > 0 && method.len() > 0 && path.len()
                        > 0 && rule_label.len() == 0 ==> told == Some("rule_label"@)
                },
                RequestModel::Capability { path, .. } => path.len() == 0 ==> told == Some("path"@),
                RequestModel::Network { host, .. } => host.len() == 0 ==> told == Some("host"@),
            }
        }),
{
    reveal_with_fuel(first_empty_field, 6);
    let fields = request.required_fields();
    match request {
        RequestModel::Command { command, caller, intercept_rule, .. } => {
            assert(fields[0].0 == command && fields.drop_first()[0].0 == caller);
            assert(fields.drop_first().drop_first()[0].0 == intercept_rule);
        },
        RequestModel::Endpoint { route_id, upstream, method, path, rule_label, .. } => {
            let second = fields.drop_first();
            let third = second.drop_first();
            let fourth = third.drop_first();
            assert(fields[0].0 == route_id && second[0].0 == upstream && third[0].0 == method);
            assert(fourth[0].0 == path && fourth.drop_first()[0].0 == rule_label);
        },
        RequestModel::Capability { path, .. } => {
            assert(fields[0].0 == path);
        },
        RequestModel::Network { host, .. } => {
            assert(fields[0].0 == host);
        },
    }
}

/// Every refusal says what is wrong, with the limit, the field or the decoder's own words.
pub proof fn refusals_say_what_is_wrong(limit: usize, text: Seq<char>)
    ensures
        (ProtocolErrorModel::BodyTooLarge { limit }).message() == "request body exceeds "@ + (
        decimal(limit as nat) + " bytes"@),
        (ProtocolErrorModel::DetailTooLarge { limit }).message() == "approval detail exceeds "@ + (
        decimal(limit as nat) + " bytes"@),
        ProtocolErrorModel::InvalidJson(text).message() == "invalid webhook JSON: "@ + text,
        ProtocolErrorModel::EmptyField(text).message()
            == "required request field must not be empty: "@ + text,
        ProtocolErrorModel::EmptyBackend.message() == "backend must not be empty"@,
        ProtocolErrorModel::EmptyRequestId.message() == "request_id must not be empty"@,
        ProtocolErrorModel::EmptySessionId.message() == "session_id must not be empty"@,
{
}

/// Whether a request carries a session and a request identifier in the fields for them.
pub open spec fn carries(request: RequestModel, session: Seq<char>, id: Seq<char>) -> bool {
    match request {
        RequestModel::Command { session_id, request_id, .. } => session_id == session && request_id
            == id,
        RequestModel::Endpoint { session_id, request_id, .. } => session_id == session
            && request_id == id,
        RequestModel::Capability { session_id, request_id, .. } => session_id == session
            && request_id == id,
        RequestModel::Network { session_id, request_id, .. } => session_id == session && request_id
            == id,
    }
}

} // verus!
